//! Projects order events onto station tickets and applies what the kitchen
//! does to them.

use vstd::prelude::*;
use vstd::utf8::encode_utf8;

use crate::ids::{OrderID, OrderItemID, PosError, PosErrorView, VenueID};
use crate::orders::{clone_opt_string, OrderEvent};
use crate::tables::Table;
use super::model::{
    KdsChange, KdsChangeKind, KdsChangeKindView, KdsChangeView, KdsLine, KdsLineStatus,
    KdsLineView, KdsState, KdsStateView, KdsTicket, KdsTicketKey, KdsTicketKeyView, KdsTicketStatus,
    KdsTicketView, clone_strings, key_before, key_parts_precede, kds_wf, lines_view,
    lemma_changes_view_push, lemma_key_asymmetric, lemma_key_total, lemma_key_transitive,
    lemma_lines_view_push, lemma_lines_view_update, lemma_sorted_update, lemma_tickets_view_update,
    ticket_key, tickets_sorted, tickets_view,
};
use super::routing::{routed_station, station_for_item, RoutingTable};
use super::events::KdsEvent;
use crate::envelope::{CoreEvent, EventEnvelope};

verus! {

pub const FNV_OFFSET_BASIS: u64 = 0xcbf29ce484222325;

pub const FNV_PRIME: u64 = 0x100000001b3;

/// The seed of the second half of a ticket id.
pub const FNV_SECOND_SEED: u64 = 0x9e3779b97f4a7c15;

/// One FNV-1a step: xor in the byte, then multiply by the prime modulo 2^64.
pub open spec fn fnv_step(hash: u64, byte: u8) -> u64 {
    (((hash ^ (byte as u64)) as int * FNV_PRIME as int) % 0x1_0000_0000_0000_0000int) as u64
}

/// The 64-bit FNV-1a hash of `data`, starting from `seed`.
pub open spec fn fnv1a64_of(data: Seq<u8>, seed: u64) -> u64
    decreases data.len(),
{
    if data.len() == 0 {
        seed
    } else {
        fnv_step(fnv1a64_of(data.drop_last(), seed), data.last())
    }
}

/// The 64-bit FNV-1a hash of `data`, starting from `seed`.
pub fn fnv1a64(data: &[u8], seed: u64) -> (r: u64)
    ensures
        r == fnv1a64_of(data@, seed),
{
    let mut hash = seed;
    let mut i: usize = 0;
    while i < data.len()
        invariant
            i <= data.len(),
            hash == fnv1a64_of(data@.take(i as int), seed),
        decreases data.len() - i,
    {
        assert(data@.take(i + 1).drop_last() =~= data@.take(i as int));
        hash = hash ^ (data[i] as u64);
        hash = hash.wrapping_mul(FNV_PRIME);
        i += 1;
    }
    assert(data@.take(i as int) =~= data@);
    hash
}

/// Byte `k` (0..16) of the big-endian form of `x`.
pub open spec fn be_byte(x: u128, k: int) -> u8 {
    ((x >> ((120 - 8 * k) as u32)) & 0xffu128) as u8
}

/// The sixteen bytes of `x`, most significant first, as a UUID's bytes are.
pub open spec fn be_bytes(x: u128) -> Seq<u8> {
    Seq::new(16, |k: int| be_byte(x, k))
}

/// What a ticket id is hashed from: the order id's bytes, then the station's.
pub open spec fn ticket_id_input(order_id: OrderID, station: Seq<char>) -> Seq<u8> {
    be_bytes(order_id.0) + encode_utf8(station)
}

/// The ticket id for an order and a station: two FNV-1a hashes of the same
/// bytes with different seeds, the first in the high 64 bits.
pub open spec fn stable_ticket_id(order_id: OrderID, station: Seq<char>) -> u128 {
    let data = ticket_id_input(order_id, station);
    let h1 = fnv1a64_of(data, FNV_OFFSET_BASIS);
    let h2 = fnv1a64_of(data, FNV_OFFSET_BASIS ^ FNV_SECOND_SEED);
    ((h1 as u128) << 64u32) | (h2 as u128)
}

/// The id of the ticket for an order at a station. It depends on nothing
/// else, so a replay of the same events gives the same ids.
pub fn stable_uuid_for_ticket(order_id: OrderID, station: &str) -> (r: u128)
    ensures
        r == stable_ticket_id(order_id, station@),
{
    let mut data: Vec<u8> = Vec::new();
    let mut k: u32 = 0;
    while k < 16
        invariant
            k <= 16,
            data@ =~= be_bytes(order_id.0).take(k as int),
        decreases 16 - k,
    {
        let shift: u32 = 120 - 8 * k;
        data.push(((order_id.0 >> shift) & 0xff) as u8);
        k += 1;
    }
    let bytes = station.as_bytes();
    let mut i: usize = 0;
    while i < bytes.len()
        invariant
            i <= bytes.len(),
            data@ =~= be_bytes(order_id.0) + bytes@.take(i as int),
        decreases bytes.len() - i,
    {
        data.push(bytes[i]);
        i += 1;
    }
    assert(bytes@.take(i as int) =~= bytes@);
    assert(data@ =~= ticket_id_input(order_id, station@));
    let h1 = fnv1a64(data.as_slice(), FNV_OFFSET_BASIS);
    let h2 = fnv1a64(data.as_slice(), FNV_OFFSET_BASIS ^ FNV_SECOND_SEED);
    ((h1 as u128) << 64u32) | (h2 as u128)
}

/// A line's id is the id of the order item it shows.
pub fn line_id_for_item(order_item_id: OrderItemID) -> (r: u128)
    ensures
        r == order_item_id.0,
{
    order_item_id.0
}

// ---------------------------------------------------------------------------
// Finding tickets and lines

/// Position of the first ticket with key `k` from position `i` on, or -1.
pub open spec fn ticket_pos_from(ts: Seq<KdsTicketView>, k: KdsTicketKeyView, i: int) -> int
    decreases ts.len() - i,
{
    if i >= ts.len() {
        -1
    } else if ticket_key(ts[i]) == k {
        i
    } else {
        ticket_pos_from(ts, k, i + 1)
    }
}

/// Position of the ticket with key `k`, or -1 when there is none.
pub open spec fn ticket_pos(ts: Seq<KdsTicketView>, k: KdsTicketKeyView) -> int {
    ticket_pos_from(ts, k, 0)
}

pub proof fn lemma_ticket_pos_from(ts: Seq<KdsTicketView>, k: KdsTicketKeyView, i: int)
    requires
        0 <= i,
    ensures
        ticket_pos_from(ts, k, i) == -1 ==> forall|j: int|
            i <= j < ts.len() ==> ticket_key(#[trigger] ts[j]) != k,
        ticket_pos_from(ts, k, i) != -1 ==> i <= ticket_pos_from(ts, k, i) < ts.len() && ticket_key(
            ts[ticket_pos_from(ts, k, i)],
        ) == k,
    decreases ts.len() - i,
{
    if i < ts.len() && ticket_key(ts[i]) != k {
        lemma_ticket_pos_from(ts, k, i + 1);
    }
}

/// Where the ticket with key `k` is (a position in `tickets`), if anywhere.
pub(crate) fn find_ticket_index(tickets: &Vec<KdsTicket>, order_id: OrderID, station: &String) -> (r: Option<
    usize,
>)
    ensures
        ({
            let p = ticket_pos(
                tickets_view(tickets@),
                KdsTicketKeyView { order_id, station: station@ },
            );
            match r {
                Some(i) => i as int == p && i < tickets@.len(),
                None => p == -1,
            }
        }),
{
    let ghost ts = tickets_view(tickets@);
    let ghost k = KdsTicketKeyView { order_id, station: station@ };
    let mut i: usize = 0;
    while i < tickets.len()
        invariant
            ts == tickets_view(tickets@),
            k == (KdsTicketKeyView { order_id, station: station@ }),
            i <= tickets.len(),
            ticket_pos(ts, k) == ticket_pos_from(ts, k, i as int),
        decreases tickets.len() - i,
    {
        if tickets[i].order_id == order_id && tickets[i].station == *station {
            assert(ticket_key(ts[i as int]) == k);
            return Some(i);
        }
        assert(ticket_key(ts[i as int]) != k);
        i += 1;
    }
    None
}

/// Position of the first line with id `id` from position `i` on, or -1.
pub open spec fn line_pos_from(ls: Seq<KdsLineView>, id: u128, i: int) -> int
    decreases ls.len() - i,
{
    if i >= ls.len() {
        -1
    } else if ls[i].line_id == id {
        i
    } else {
        line_pos_from(ls, id, i + 1)
    }
}

/// Position of the first line with id `id`, or -1 when there is none.
pub open spec fn line_pos(ls: Seq<KdsLineView>, id: u128) -> int {
    line_pos_from(ls, id, 0)
}

pub proof fn lemma_line_pos_from(ls: Seq<KdsLineView>, id: u128, i: int)
    requires
        0 <= i,
    ensures
        line_pos_from(ls, id, i) == -1 ==> forall|j: int|
            i <= j < ls.len() ==> (#[trigger] ls[j]).line_id != id,
        line_pos_from(ls, id, i) != -1 ==> i <= line_pos_from(ls, id, i) < ls.len()
            && ls[line_pos_from(ls, id, i)].line_id == id,
    decreases ls.len() - i,
{
    if i < ls.len() && ls[i].line_id != id {
        lemma_line_pos_from(ls, id, i + 1);
    }
}

fn find_line_index(lines: &Vec<KdsLine>, line_id: u128) -> (r: Option<usize>)
    ensures
        ({
            let p = line_pos(lines_view(lines@), line_id);
            match r {
                Some(i) => i as int == p && i < lines@.len(),
                None => p == -1,
            }
        }),
{
    let ghost ls = lines_view(lines@);
    let mut i: usize = 0;
    while i < lines.len()
        invariant
            ls == lines_view(lines@),
            i <= lines.len(),
            line_pos(ls, line_id) == line_pos_from(ls, line_id, i as int),
        decreases lines.len() - i,
    {
        if lines[i].line_id == line_id {
            return Some(i);
        }
        i += 1;
    }
    None
}

// ---------------------------------------------------------------------------
// Keeping tickets in key order

/// `p` is where a ticket with key `k` goes: after every smaller key and before
/// every larger one.
pub open spec fn is_insert_pos(ts: Seq<KdsTicketView>, k: KdsTicketKeyView, p: int) -> bool {
    &&& 0 <= p <= ts.len()
    &&& forall|j: int| 0 <= j < p ==> key_before(ticket_key(#[trigger] ts[j]), k)
    &&& forall|j: int| p <= j < ts.len() ==> key_before(k, ticket_key(#[trigger] ts[j]))
}

/// Where a ticket with key `k` is inserted (meaningful when `k` is new).
pub open spec fn insert_pos(ts: Seq<KdsTicketView>, k: KdsTicketKeyView) -> int {
    choose|p: int| is_insert_pos(ts, k, p)
}

proof fn lemma_insert_pos_unique(ts: Seq<KdsTicketView>, k: KdsTicketKeyView, p: int, q: int)
    requires
        is_insert_pos(ts, k, p),
        is_insert_pos(ts, k, q),
    ensures
        p == q,
{
    if p < q {
        assert(key_before(ticket_key(ts[p]), k));
        assert(key_before(k, ticket_key(ts[p])));
        lemma_key_asymmetric(k, ticket_key(ts[p]));
    } else if q < p {
        assert(key_before(ticket_key(ts[q]), k));
        assert(key_before(k, ticket_key(ts[q])));
        lemma_key_asymmetric(k, ticket_key(ts[q]));
    }
}

proof fn lemma_find_insert_pos(ts: Seq<KdsTicketView>, k: KdsTicketKeyView, i: int) -> (p: int)
    requires
        tickets_sorted(ts),
        forall|j: int| 0 <= j < ts.len() ==> ticket_key(#[trigger] ts[j]) != k,
        0 <= i <= ts.len(),
        forall|j: int| 0 <= j < i ==> key_before(ticket_key(#[trigger] ts[j]), k),
    ensures
        is_insert_pos(ts, k, p),
    decreases ts.len() - i,
{
    if i == ts.len() {
        i
    } else if key_before(k, ticket_key(ts[i])) {
        assert forall|j: int| i <= j < ts.len() implies key_before(k, ticket_key(#[trigger] ts[j])) by {
            if j > i {
                lemma_key_transitive(k, ticket_key(ts[i]), ticket_key(ts[j]));
            }
        }
        i
    } else {
        lemma_key_total(ticket_key(ts[i]), k);
        lemma_find_insert_pos(ts, k, i + 1)
    }
}

/// A new key has a place among tickets in key order.
pub proof fn lemma_insert_pos_exists(ts: Seq<KdsTicketView>, k: KdsTicketKeyView)
    requires
        tickets_sorted(ts),
        ticket_pos(ts, k) == -1,
    ensures
        is_insert_pos(ts, k, insert_pos(ts, k)),
{
    lemma_ticket_pos_from(ts, k, 0);
    let p = lemma_find_insert_pos(ts, k, 0);
    assert(is_insert_pos(ts, k, p));
}

/// Inserting a ticket at its place keeps the tickets in key order.
pub proof fn lemma_sorted_insert(ts: Seq<KdsTicketView>, t: KdsTicketView, p: int)
    requires
        tickets_sorted(ts),
        is_insert_pos(ts, ticket_key(t), p),
    ensures
        tickets_sorted(ts.insert(p, t)),
{
    let r = ts.insert(p, t);
    assert forall|i: int, j: int| 0 <= i < j < r.len() implies key_before(
        ticket_key(#[trigger] r[i]),
        ticket_key(#[trigger] r[j]),
    ) by {
        if j < p {
            assert(r[i] == ts[i] && r[j] == ts[j]);
        } else if j == p {
            assert(r[i] == ts[i]);
        } else if i < p {
            assert(r[i] == ts[i] && r[j] == ts[j - 1]);
        } else if i == p {
            assert(r[j] == ts[j - 1]);
        } else {
            assert(r[i] == ts[i - 1] && r[j] == ts[j - 1]);
        }
    }
}

/// Replacing tickets by ones with the same keys keeps the tickets in key order.
pub proof fn lemma_sorted_same_keys(a: Seq<KdsTicketView>, b: Seq<KdsTicketView>)
    requires
        tickets_sorted(a),
        a.len() == b.len(),
        forall|j: int| 0 <= j < a.len() ==> ticket_key(#[trigger] b[j]) == ticket_key(a[j]),
    ensures
        tickets_sorted(b),
{
    assert forall|i: int, j: int| 0 <= i < j < b.len() implies key_before(
        ticket_key(#[trigger] b[i]),
        ticket_key(#[trigger] b[j]),
    ) by {
        assert(key_before(ticket_key(a[i]), ticket_key(a[j])));
    }
}

/// The position where a ticket with a new key goes.
fn insert_index(tickets: &Vec<KdsTicket>, key: &KdsTicketKey) -> (r: usize)
    requires
        tickets_sorted(tickets_view(tickets@)),
        ticket_pos(tickets_view(tickets@), key@) == -1,
    ensures
        r as int == insert_pos(tickets_view(tickets@), key@),
        is_insert_pos(tickets_view(tickets@), key@, r as int),
{
    let ghost ts = tickets_view(tickets@);
    let ghost k = key@;
    proof {
        lemma_ticket_pos_from(ts, k, 0);
    }
    let mut i: usize = 0;
    while i < tickets.len() && !key_parts_precede(
        key.order_id,
        key.station.as_str(),
        tickets[i].order_id,
        tickets[i].station.as_str(),
    )
        invariant
            ts == tickets_view(tickets@),
            k == key@,
            i <= tickets.len(),
            tickets_sorted(ts),
            forall|j: int| 0 <= j < ts.len() ==> ticket_key(#[trigger] ts[j]) != k,
            forall|j: int| 0 <= j < i ==> key_before(ticket_key(#[trigger] ts[j]), k),
        decreases tickets.len() - i,
    {
        proof {
            lemma_key_total(ticket_key(ts[i as int]), k);
        }
        i += 1;
    }
    proof {
        if i < tickets.len() {
            assert forall|j: int| i <= j < ts.len() implies key_before(
                k,
                ticket_key(#[trigger] ts[j]),
            ) by {
                if j > i {
                    lemma_key_transitive(k, ticket_key(ts[i as int]), ticket_key(ts[j]));
                }
            }
        }
        assert(is_insert_pos(ts, k, i as int));
        lemma_insert_pos_unique(ts, k, i as int, insert_pos(ts, k));
    }
    i
}

// ---------------------------------------------------------------------------
// Creating and updating tickets

/// The table's id and label, when a table is given.
pub open spec fn with_table(t: KdsTicketView, table: Option<&Table>) -> KdsTicketView {
    match table {
        Some(tb) => KdsTicketView { table_id: Some(tb.table_id), table_label: Some(tb.label), ..t },
        None => t,
    }
}

/// A fresh ticket for a key: no line, no note, status `New`, stamped `seq`.
pub open spec fn new_ticket(key: KdsTicketKey, venue_id: VenueID, table: Option<&Table>, seq: u64) -> KdsTicketView {
    KdsTicketView {
        ticket_id: stable_ticket_id(key.order_id, key.station@),
        venue_id,
        station: key.station,
        order_id: key.order_id,
        table_id: match table {
            Some(tb) => Some(tb.table_id),
            None => None,
        },
        table_label: match table {
            Some(tb) => Some(tb.label),
            None => None,
        },
        status: KdsTicketStatus::New,
        created_at_seq: seq,
        updated_at_seq: seq,
        lines: Seq::empty(),
        notes: Seq::empty(),
    }
}

/// The tickets after making sure that one with `key` exists: unchanged when
/// there is one, else a new ticket at its place in key order.
pub open spec fn tickets_with_key(
    ts: Seq<KdsTicketView>,
    key: KdsTicketKey,
    venue_id: VenueID,
    table: Option<&Table>,
    seq: u64,
) -> Seq<KdsTicketView> {
    if ticket_pos(ts, key@) >= 0 {
        ts
    } else {
        ts.insert(insert_pos(ts, key@), new_ticket(key, venue_id, table, seq))
    }
}

/// Position of the ticket with `key` once it is sure to exist.
pub open spec fn pos_with_key(ts: Seq<KdsTicketView>, key: KdsTicketKey) -> int {
    if ticket_pos(ts, key@) >= 0 {
        ticket_pos(ts, key@)
    } else {
        insert_pos(ts, key@)
    }
}

/// Makes sure that a ticket with `key` exists and gives its position.
fn ensure_ticket(
    state: &mut KdsState,
    key: &KdsTicketKey,
    venue_id: VenueID,
    table: Option<&Table>,
    seq: u64,
) -> (r: usize)
    requires
        kds_wf(old(state)@),
    ensures
        kds_wf(final(state)@),
        final(state)@ == (KdsStateView {
            tickets: tickets_with_key(old(state)@.tickets, *key, venue_id, table, seq),
            ..old(state)@
        }),
        r as int == pos_with_key(old(state)@.tickets, *key),
        r < final(state)@.tickets.len(),
        ticket_key(final(state)@.tickets[r as int]) == key@,
{
    let ghost ts = old(state)@.tickets;
    match find_ticket_index(&state.tickets, key.order_id, &key.station) {
        Some(i) => {
            proof {
                lemma_ticket_pos_from(ts, key@, 0);
                assert(state@ == (KdsStateView { tickets: ts, ..old(state)@ }));
            }
            i
        },
        None => {
            let p = insert_index(&state.tickets, key);
            let ticket = KdsTicket {
                ticket_id: stable_uuid_for_ticket(key.order_id, key.station.as_str()),
                venue_id,
                station: key.station.clone(),
                order_id: key.order_id,
                table_id: match table {
                    Some(t) => Some(t.table_id),
                    None => None,
                },
                table_label: match table {
                    Some(t) => Some(t.label.clone()),
                    None => None,
                },
                status: KdsTicketStatus::New,
                created_at_seq: seq,
                updated_at_seq: seq,
                lines: Vec::new(),
                notes: Vec::new(),
            };
            assert(ticket@.lines =~= Seq::<KdsLineView>::empty());
            assert(ticket@.notes =~= Seq::<String>::empty());
            assert(ticket@ == new_ticket(*key, venue_id, table, seq));
            state.tickets.insert(p, ticket);
            proof {
                assert(tickets_view(state.tickets@) =~= ts.insert(
                    p as int,
                    new_ticket(*key, venue_id, table, seq),
                ));
                lemma_sorted_insert(ts, new_ticket(*key, venue_id, table, seq), p as int);
            }
            p
        },
    }
}

/// Puts the table's id and label on the ticket, when a table is given.
fn update_ticket_table_meta(ticket: &mut KdsTicket, table: Option<&Table>)
    ensures
        final(ticket)@ == with_table(old(ticket)@, table),
{
    if let Some(t) = table {
        ticket.table_id = Some(t.table_id);
        ticket.table_label = Some(t.label.clone());
    }
}


// ---------------------------------------------------------------------------
// Order events

/// `a + b`, or `u32::MAX` when the sum does not fit.
pub open spec fn sat_add(a: u32, b: u32) -> u32 {
    if a + b > u32::MAX {
        u32::MAX
    } else {
        (a + b) as u32
    }
}

/// The cursor after an event stamped `seq`: the larger of the two.
pub open spec fn cursor_after(cursor: u64, seq: u64) -> u64 {
    if seq > cursor {
        seq
    } else {
        cursor
    }
}

/// A line whose item was ordered again: more of it, and back to `New` if it
/// had been voided.
pub open spec fn bumped_line(l: KdsLineView, qty: u32) -> KdsLineView {
    KdsLineView {
        qty: sat_add(l.qty, qty),
        status: if l.status == KdsLineStatus::Voided {
            KdsLineStatus::New
        } else {
            l.status
        },
        ..l
    }
}

/// A line for a newly ordered item.
pub open spec fn new_line(line_id: u128, name: String, qty: u32, note: Option<String>) -> KdsLineView {
    KdsLineView { line_id, name, qty, modifiers: Seq::empty(), note, status: KdsLineStatus::New }
}

pub open spec fn qty_changed(l: KdsLineView, qty: u32) -> KdsChangeKindView {
    KdsChangeKindView::LineQtyChanged {
        line_id: l.line_id,
        name: l.name,
        from_qty: l.qty,
        to_qty: sat_add(l.qty, qty),
        modifiers: l.modifiers,
        note: l.note,
    }
}

pub open spec fn line_added(l: KdsLineView) -> KdsChangeKindView {
    KdsChangeKindView::LineAdded {
        line_id: l.line_id,
        name: l.name,
        qty: l.qty,
        modifiers: l.modifiers,
        note: l.note,
    }
}

pub open spec fn line_voided(l: KdsLineView) -> KdsChangeKindView {
    KdsChangeKindView::LineVoided {
        line_id: l.line_id,
        name: l.name,
        qty: l.qty,
        modifiers: l.modifiers,
        note: l.note,
    }
}

/// What an event does to the display: the state after it, and the error it
/// was refused with, if it was. A refused event still moves the cursor.
pub struct KdsOutcome {
    pub state: KdsStateView,
    pub error: Option<PosErrorView>,
}

pub open spec fn kds_ok(state: KdsStateView) -> KdsOutcome {
    KdsOutcome { state, error: None }
}

pub open spec fn kds_refused(state: KdsStateView, error: PosErrorView) -> KdsOutcome {
    KdsOutcome { state, error: Some(error) }
}

/// An item reaches the station that the routing table picks: its line is
/// added to the ticket of that order and station (made if needed), or, when
/// the ticket already shows the item, the quantity grows.
pub open spec fn kds_item_added(
    s: KdsStateView,
    venue_id: VenueID,
    order_id: OrderID,
    order_item_id: OrderItemID,
    menu_item_id: crate::ids::MenuItemID,
    name: String,
    qty: u32,
    notes: Option<String>,
    seq: u64,
    routing: RoutingTable,
    table: Option<&Table>,
) -> KdsStateView {
    let station = routed_station(routing, menu_item_id, name@);
    let key = KdsTicketKey { order_id, station };
    let ts = tickets_with_key(s.tickets, key, venue_id, table, seq);
    let p = pos_with_key(s.tickets, key);
    let t = with_table(ts[p], table);
    let lp = line_pos(t.lines, order_item_id.0);
    if lp >= 0 {
        let l = t.lines[lp];
        KdsStateView {
            tickets: ts.update(
                p,
                KdsTicketView {
                    lines: t.lines.update(lp, bumped_line(l, qty)),
                    updated_at_seq: seq,
                    ..t
                },
            ),
            changes: s.changes.push(
                KdsChangeView { seq, station, order_id, change: qty_changed(l, qty) },
            ),
            ..s
        }
    } else {
        let l = new_line(order_item_id.0, name, qty, notes);
        KdsStateView {
            tickets: ts.update(p, KdsTicketView { lines: t.lines.push(l), updated_at_seq: seq, ..t }),
            item_to_ticket: s.item_to_ticket.insert(order_item_id.0, key),
            line_to_ticket: s.line_to_ticket.insert(order_item_id.0, key),
            changes: s.changes.push(KdsChangeView { seq, station, order_id, change: line_added(l) }),
            ..s
        }
    }
}

/// A removed item voids its line (once); refused when the display never
/// showed the item.
pub open spec fn kds_item_removed(
    s: KdsStateView,
    order_id: OrderID,
    order_item_id: OrderItemID,
    seq: u64,
) -> KdsOutcome {
    if !s.item_to_ticket.contains_key(order_item_id.0) {
        kds_refused(s, PosErrorView::NotFound("kds ticket for item not found"@))
    } else {
        let key = s.item_to_ticket[order_item_id.0];
        let p = ticket_pos(s.tickets, key@);
        if p < 0 {
            kds_refused(s, PosErrorView::NotFound("kds ticket not found"@))
        } else {
            let t = s.tickets[p];
            let lp = line_pos(t.lines, order_item_id.0);
            if lp < 0 {
                kds_refused(s, PosErrorView::NotFound("kds line not found"@))
            } else {
                let l = t.lines[lp];
                if l.status == KdsLineStatus::Voided {
                    kds_ok(s)
                } else {
                    kds_ok(
                        KdsStateView {
                            tickets: s.tickets.update(
                                p,
                                KdsTicketView {
                                    lines: t.lines.update(
                                        lp,
                                        KdsLineView { status: KdsLineStatus::Voided, ..l },
                                    ),
                                    updated_at_seq: seq,
                                    ..t
                                },
                            ),
                            changes: s.changes.push(
                                KdsChangeView {
                                    seq,
                                    station: key.station,
                                    order_id,
                                    change: line_voided(l),
                                },
                            ),
                            ..s
                        },
                    )
                }
            }
        }
    }
}

/// A ticket of a closed order: completed unless it was cancelled.
pub open spec fn closed_ticket(t: KdsTicketView, seq: u64) -> KdsTicketView {
    KdsTicketView {
        status: if t.status == KdsTicketStatus::Cancelled {
            KdsTicketStatus::Cancelled
        } else {
            KdsTicketStatus::Completed
        },
        updated_at_seq: seq,
        ..t
    }
}

/// Every ticket of the order closed; the others unchanged.
pub open spec fn close_order_tickets(ts: Seq<KdsTicketView>, order_id: OrderID, seq: u64) -> Seq<
    KdsTicketView,
> {
    ts.map_values(
        |t: KdsTicketView|
            if t.order_id == order_id {
                closed_ticket(t, seq)
            } else {
                t
            },
    )
}

/// What an order event stamped `seq` does to the display.
pub open spec fn kds_after_order_event(
    s: KdsStateView,
    e: OrderEvent,
    seq: u64,
    routing: RoutingTable,
    table: Option<&Table>,
) -> KdsOutcome {
    let s0 = KdsStateView { cursor: cursor_after(s.cursor, seq), ..s };
    match e {
        OrderEvent::OrderOpened { .. } => kds_ok(s0),
        OrderEvent::ItemAdded {
            venue_id,
            order_id,
            order_item_id,
            menu_item_id,
            name,
            qty,
            notes,
            ..
        } => kds_ok(
            kds_item_added(
                s0,
                venue_id,
                order_id,
                order_item_id,
                menu_item_id,
                name,
                qty,
                notes,
                seq,
                routing,
                table,
            ),
        ),
        OrderEvent::ItemRemoved { order_id, order_item_id, .. } => kds_item_removed(
            s0,
            order_id,
            order_item_id,
            seq,
        ),
        OrderEvent::OrderClosed { order_id, .. } => kds_ok(
            KdsStateView { tickets: close_order_tickets(s0.tickets, order_id, seq), ..s0 },
        ),
    }
}

/// The ticket after its line `lp` was ordered again, and the change to log.
fn bump_line(
    ticket: &mut KdsTicket,
    lp: usize,
    qty: u32,
    seq: u64,
    station: &String,
    order_id: OrderID,
) -> (c: KdsChange)
    requires
        lp < old(ticket)@.lines.len(),
    ensures
        final(ticket)@ == (KdsTicketView {
            lines: old(ticket)@.lines.update(lp as int, bumped_line(old(ticket)@.lines[lp as int], qty)),
            updated_at_seq: seq,
            ..old(ticket)@
        }),
        c@ == (KdsChangeView {
            seq,
            station: *station,
            order_id,
            change: qty_changed(old(ticket)@.lines[lp as int], qty),
        }),
{
    let ghost old_lines = ticket.lines@;
    let mut line = ticket.lines[lp].clone();
    let from_qty = line.qty;
    line.qty = line.qty.saturating_add(qty);
    if line.status == KdsLineStatus::Voided {
        line.status = KdsLineStatus::New;
    }
    let change = KdsChange {
        seq,
        station: station.clone(),
        order_id,
        change: KdsChangeKind::LineQtyChanged {
            line_id: line.line_id,
            name: line.name.clone(),
            from_qty,
            to_qty: line.qty,
            modifiers: clone_strings(&line.modifiers),
            note: clone_opt_string(&line.note),
        },
    };
    ticket.lines.set(lp, line);
    ticket.updated_at_seq = seq;
    proof {
        lemma_lines_view_update(old_lines, lp as int, line);
    }
    change
}

/// The ticket with a new line for an item, and the change to log.
fn add_line(
    ticket: &mut KdsTicket,
    line_id: u128,
    name: &String,
    qty: u32,
    notes: &Option<String>,
    seq: u64,
    station: &String,
    order_id: OrderID,
) -> (c: KdsChange)
    ensures
        final(ticket)@ == (KdsTicketView {
            lines: old(ticket)@.lines.push(new_line(line_id, *name, qty, *notes)),
            updated_at_seq: seq,
            ..old(ticket)@
        }),
        c@ == (KdsChangeView {
            seq,
            station: *station,
            order_id,
            change: line_added(new_line(line_id, *name, qty, *notes)),
        }),
{
    let ghost old_lines = ticket.lines@;
    let line = KdsLine {
        line_id,
        name: name.clone(),
        qty,
        modifiers: Vec::new(),
        note: clone_opt_string(notes),
        status: KdsLineStatus::New,
    };
    assert(line@.modifiers =~= Seq::<String>::empty());
    let change = KdsChange {
        seq,
        station: station.clone(),
        order_id,
        change: KdsChangeKind::LineAdded {
            line_id,
            name: line.name.clone(),
            qty,
            modifiers: Vec::new(),
            note: clone_opt_string(&line.note),
        },
    };
    assert(change@.change == line_added(line@));
    ticket.lines.push(line);
    ticket.updated_at_seq = seq;
    proof {
        lemma_lines_view_push(old_lines, line);
    }
    change
}

/// The ticket with its line `lp` voided, and the change to log.
fn void_line(ticket: &mut KdsTicket, lp: usize, seq: u64, station: &String, order_id: OrderID) -> (c:
    KdsChange)
    requires
        lp < old(ticket)@.lines.len(),
    ensures
        final(ticket)@ == (KdsTicketView {
            lines: old(ticket)@.lines.update(
                lp as int,
                KdsLineView { status: KdsLineStatus::Voided, ..old(ticket)@.lines[lp as int] },
            ),
            updated_at_seq: seq,
            ..old(ticket)@
        }),
        c@ == (KdsChangeView {
            seq,
            station: *station,
            order_id,
            change: line_voided(old(ticket)@.lines[lp as int]),
        }),
{
    let ghost old_lines = ticket.lines@;
    let mut line = ticket.lines[lp].clone();
    line.status = KdsLineStatus::Voided;
    let change = KdsChange {
        seq,
        station: station.clone(),
        order_id,
        change: KdsChangeKind::LineVoided {
            line_id: line.line_id,
            name: line.name.clone(),
            qty: line.qty,
            modifiers: clone_strings(&line.modifiers),
            note: clone_opt_string(&line.note),
        },
    };
    ticket.lines.set(lp, line);
    ticket.updated_at_seq = seq;
    proof {
        lemma_lines_view_update(old_lines, lp as int, line);
    }
    change
}

/// Completes a ticket of a closed order, unless it was cancelled.
fn close_ticket(ticket: &mut KdsTicket, seq: u64)
    ensures
        final(ticket)@ == closed_ticket(old(ticket)@, seq),
{
    if ticket.status != KdsTicketStatus::Cancelled {
        ticket.status = KdsTicketStatus::Completed;
    }
    ticket.updated_at_seq = seq;
}

/// Projects one order event, stamped `seq`, onto the display.
///
/// The cursor moves to `seq` when that is later, whatever happens next. An
/// added item goes to the station that `routing` picks; `table`, when given,
/// labels the ticket. A removed item voids its line. A closed order completes
/// all its tickets but the cancelled ones.
pub fn apply_order_event(
    state: &mut KdsState,
    event: &OrderEvent,
    seq: u64,
    routing: &RoutingTable,
    table: Option<&Table>,
) -> (r: Result<(), PosError>)
    requires
        kds_wf(old(state)@),
    ensures
        kds_wf(final(state)@),
        final(state)@ == kds_after_order_event(old(state)@, *event, seq, *routing, table).state,
        r is Ok <==> kds_after_order_event(old(state)@, *event, seq, *routing, table).error is None,
        r matches Err(e) ==> kds_after_order_event(old(state)@, *event, seq, *routing, table).error
            == Some(e@),
{
    if seq > state.cursor {
        state.cursor = seq;
    }
    let ghost s0 = state@;
    match event {
        OrderEvent::OrderOpened { .. } => {},
        OrderEvent::ItemAdded {
            venue_id,
            order_id,
            order_item_id,
            menu_item_id,
            name,
            qty,
            notes,
            ..
        } => {
            let station = station_for_item(*menu_item_id, name.as_str(), routing);
            let key = KdsTicketKey::new(*order_id, station.clone());
            let line_id = line_id_for_item(*order_item_id);
            let idx = ensure_ticket(state, &key, *venue_id, table, seq);
            let ghost s1 = state@;
            let ghost raw1 = state.tickets@;
            update_ticket_table_meta(&mut state.tickets[idx], table);
            proof {
                lemma_tickets_view_update(raw1, idx as int, state.tickets@[idx as int]);
                lemma_sorted_update(s1.tickets, idx as int, state@.tickets[idx as int]);
            }
            let ghost s2 = state@;
            let ghost raw2 = state.tickets@;
            match find_line_index(&state.tickets[idx].lines, line_id) {
                Some(lp) => {
                    let change = bump_line(&mut state.tickets[idx], lp, *qty, seq, &station, *order_id);
                    proof {
                        lemma_tickets_view_update(raw2, idx as int, state.tickets@[idx as int]);
                        lemma_sorted_update(s2.tickets, idx as int, state@.tickets[idx as int]);
                        assert(s1.tickets.update(idx as int, state@.tickets[idx as int]) =~= state@.tickets);
                    }
                    let ghost raw3 = state.changes@;
                    state.changes.push(change);
                    proof {
                        lemma_changes_view_push(raw3, change);
                    }
                },
                None => {
                    let change = add_line(
                        &mut state.tickets[idx],
                        line_id,
                        name,
                        *qty,
                        notes,
                        seq,
                        &station,
                        *order_id,
                    );
                    proof {
                        lemma_tickets_view_update(raw2, idx as int, state.tickets@[idx as int]);
                        lemma_sorted_update(s2.tickets, idx as int, state@.tickets[idx as int]);
                        assert(s1.tickets.update(idx as int, state@.tickets[idx as int]) =~= state@.tickets);
                    }
                    state.item_to_ticket.insert(order_item_id.0, key.clone());
                    state.line_to_ticket.insert(line_id, key);
                    let ghost raw3 = state.changes@;
                    state.changes.push(change);
                    proof {
                        lemma_changes_view_push(raw3, change);
                    }
                },
            }
            assert(state@ == kds_after_order_event(old(state)@, *event, seq, *routing, table).state);
        },
        OrderEvent::ItemRemoved { order_item_id, order_id, .. } => {
            let key = match state.item_to_ticket.get(&order_item_id.0) {
                Some(k) => k.clone(),
                None => {
                    return Err(PosError::not_found("kds ticket for item not found"));
                },
            };
            let idx = match find_ticket_index(&state.tickets, key.order_id, &key.station) {
                Some(i) => i,
                None => {
                    return Err(PosError::not_found("kds ticket not found"));
                },
            };
            let line_id = line_id_for_item(*order_item_id);
            let lp = match find_line_index(&state.tickets[idx].lines, line_id) {
                Some(p) => p,
                None => {
                    return Err(PosError::not_found("kds line not found"));
                },
            };
            if state.tickets[idx].lines[lp].status != KdsLineStatus::Voided {
                let ghost raw2 = state.tickets@;
                let change = void_line(&mut state.tickets[idx], lp, seq, &key.station, *order_id);
                proof {
                    lemma_tickets_view_update(raw2, idx as int, state.tickets@[idx as int]);
                    lemma_sorted_update(s0.tickets, idx as int, state@.tickets[idx as int]);
                }
                let ghost raw3 = state.changes@;
                state.changes.push(change);
                proof {
                    lemma_changes_view_push(raw3, change);
                }
            }
        },
        OrderEvent::OrderClosed { order_id, .. } => {
            let ghost ts0 = s0.tickets;
            let mut i: usize = 0;
            while i < state.tickets.len()
                invariant
                    i <= state.tickets.len(),
                    state@.tickets.len() == ts0.len(),
                    forall|j: int|
                        0 <= j < i ==> (#[trigger] state@.tickets[j]) == (if ts0[j].order_id
                            == *order_id {
                            closed_ticket(ts0[j], seq)
                        } else {
                            ts0[j]
                        }),
                    forall|j: int| i <= j < ts0.len() ==> (#[trigger] state@.tickets[j]) == ts0[j],
                    state@ == (KdsStateView { tickets: state@.tickets, ..s0 }),
                decreases state.tickets.len() - i,
            {
                let ghost prev = state@.tickets;
                if state.tickets[i].order_id == *order_id {
                    let ghost raw = state.tickets@;
                    close_ticket(&mut state.tickets[i], seq);
                    proof {
                        lemma_tickets_view_update(raw, i as int, state.tickets@[i as int]);
                    }
                }
                proof {
                    assert(state@.tickets =~= prev.update(i as int, state@.tickets[i as int]));
                    assert(prev[i as int] == ts0[i as int]);
                }
                i += 1;
            }
            proof {
                assert(state@.tickets =~= close_order_tickets(ts0, *order_id, seq));
                lemma_sorted_same_keys(ts0, state@.tickets);
            }
        },
    }
    Ok(())
}


// ---------------------------------------------------------------------------
// Kitchen events

/// A ticket with a new status, stamped `seq`.
pub open spec fn with_status(t: KdsTicketView, status: KdsTicketStatus, seq: u64) -> KdsTicketView {
    KdsTicketView { status, updated_at_seq: seq, ..t }
}

/// Every line is done or voided.
pub open spec fn all_lines_finished(ls: Seq<KdsLineView>) -> bool {
    forall|i: int|
        0 <= i < ls.len() ==> (#[trigger] ls[i]).status == KdsLineStatus::Done || ls[i].status
            == KdsLineStatus::Voided
}

/// Whether every line is done or voided.
pub fn lines_finished(lines: &Vec<KdsLine>) -> (r: bool)
    ensures
        r == all_lines_finished(lines_view(lines@)),
{
    let ghost ls = lines_view(lines@);
    let mut i: usize = 0;
    while i < lines.len()
        invariant
            ls == lines_view(lines@),
            i <= lines.len(),
            forall|j: int|
                0 <= j < i ==> (#[trigger] ls[j]).status == KdsLineStatus::Done || ls[j].status
                    == KdsLineStatus::Voided,
        decreases lines.len() - i,
    {
        let st = lines[i].status;
        if st != KdsLineStatus::Done && st != KdsLineStatus::Voided {
            assert(!(ls[i as int].status == KdsLineStatus::Done || ls[i as int].status == KdsLineStatus::Voided));
            return false;
        }
        i += 1;
    }
    true
}

/// The ticket of an order at a station gets a new status; refused when there
/// is no such ticket.
pub open spec fn kds_set_status(
    s: KdsStateView,
    order_id: OrderID,
    station: Seq<char>,
    status: KdsTicketStatus,
    seq: u64,
) -> KdsOutcome {
    let p = ticket_pos(s.tickets, KdsTicketKeyView { order_id, station });
    if p < 0 {
        kds_refused(s, PosErrorView::NotFound("kds ticket not found"@))
    } else {
        kds_ok(
            KdsStateView { tickets: s.tickets.update(p, with_status(s.tickets[p], status, seq)), ..s },
        )
    }
}

/// The status of a ticket after one of its lines was started or finished.
pub open spec fn status_after_line(t: KdsTicketView, lines: Seq<KdsLineView>, line_status: KdsLineStatus) -> KdsTicketStatus {
    if line_status == KdsLineStatus::InProgress {
        if t.status == KdsTicketStatus::New || t.status == KdsTicketStatus::Acknowledged {
            KdsTicketStatus::InProgress
        } else {
            t.status
        }
    } else if all_lines_finished(lines) && !(t.status == KdsTicketStatus::Completed || t.status
        == KdsTicketStatus::Cancelled) {
        KdsTicketStatus::Ready
    } else {
        t.status
    }
}

/// A line is started (`InProgress`) or finished (`Done`): its ticket is found
/// through the line id; refused when the display does not know the line.
pub open spec fn kds_line_event(
    s: KdsStateView,
    line_id: u128,
    line_status: KdsLineStatus,
    seq: u64,
) -> KdsOutcome {
    if !s.line_to_ticket.contains_key(line_id) {
        kds_refused(s, PosErrorView::NotFound("kds ticket for line not found"@))
    } else {
        let key = s.line_to_ticket[line_id];
        let p = ticket_pos(s.tickets, key@);
        if p < 0 {
            kds_refused(s, PosErrorView::NotFound("kds ticket not found"@))
        } else {
            let t = s.tickets[p];
            let lp = line_pos(t.lines, line_id);
            if lp < 0 {
                kds_refused(s, PosErrorView::NotFound("kds line not found"@))
            } else {
                let lines = t.lines.update(lp, KdsLineView { status: line_status, ..t.lines[lp] });
                kds_ok(
                    KdsStateView {
                        tickets: s.tickets.update(
                            p,
                            KdsTicketView {
                                lines,
                                status: status_after_line(t, lines, line_status),
                                updated_at_seq: seq,
                                ..t
                            },
                        ),
                        ..s
                    },
                )
            }
        }
    }
}

/// What a kitchen event stamped `seq` does to the display.
pub open spec fn kds_after_kds_event(s: KdsStateView, e: KdsEvent, seq: u64) -> KdsOutcome {
    let s0 = KdsStateView { cursor: cursor_after(s.cursor, seq), ..s };
    match e {
        KdsEvent::TicketAcknowledged { station, order_id, .. } => kds_set_status(
            s0,
            order_id,
            station@,
            KdsTicketStatus::Acknowledged,
            seq,
        ),
        KdsEvent::TicketBumped { station, order_id, .. } => kds_set_status(
            s0,
            order_id,
            station@,
            KdsTicketStatus::Completed,
            seq,
        ),
        KdsEvent::TicketRecalled { station, order_id, .. } => kds_set_status(
            s0,
            order_id,
            station@,
            KdsTicketStatus::InProgress,
            seq,
        ),
        KdsEvent::LineStarted { line_id, .. } => kds_line_event(
            s0,
            line_id,
            KdsLineStatus::InProgress,
            seq,
        ),
        KdsEvent::LineDone { line_id, .. } => kds_line_event(s0, line_id, KdsLineStatus::Done, seq),
        KdsEvent::TicketNoteAdded { station, order_id, note, .. } => {
            let p = ticket_pos(s0.tickets, KdsTicketKeyView { order_id, station: station@ });
            if p < 0 {
                kds_refused(s0, PosErrorView::NotFound("kds ticket not found"@))
            } else {
                let t = s0.tickets[p];
                kds_ok(
                    KdsStateView {
                        tickets: s0.tickets.update(
                            p,
                            KdsTicketView { notes: t.notes.push(note), updated_at_seq: seq, ..t },
                        ),
                        changes: s0.changes.push(
                            KdsChangeView {
                                seq,
                                station,
                                order_id,
                                change: KdsChangeKindView::TicketNoteAdded { note },
                            },
                        ),
                        ..s0
                    },
                )
            }
        },
    }
}

/// The position of the ticket of an order at a station.
fn locate_ticket(state: &KdsState, station: &String, order_id: OrderID) -> (r: Result<usize, PosError>)
    ensures
        ({
            let p = ticket_pos(state@.tickets, KdsTicketKeyView { order_id, station: station@ });
            match r {
                Ok(i) => i as int == p && i < state.tickets@.len(),
                Err(e) => p == -1 && e@ == PosErrorView::NotFound("kds ticket not found"@),
            }
        }),
{
    match find_ticket_index(&state.tickets, order_id, station) {
        Some(i) => Ok(i),
        None => Err(PosError::not_found("kds ticket not found")),
    }
}

/// The position of the ticket that holds a line.
fn locate_ticket_by_line(state: &KdsState, line_id: u128) -> (r: Result<usize, PosError>)
    ensures
        ({
            let s = state@;
            match r {
                Ok(i) => s.line_to_ticket.contains_key(line_id) && i as int == ticket_pos(
                    s.tickets,
                    s.line_to_ticket[line_id]@,
                ) && i < state.tickets@.len(),
                Err(e) => if !s.line_to_ticket.contains_key(line_id) {
                    e@ == PosErrorView::NotFound("kds ticket for line not found"@)
                } else {
                    ticket_pos(s.tickets, s.line_to_ticket[line_id]@) == -1 && e@
                        == PosErrorView::NotFound("kds ticket not found"@)
                },
            }
        }),
{
    let key = match state.line_to_ticket.get(&line_id) {
        Some(k) => k.clone(),
        None => {
            return Err(PosError::not_found("kds ticket for line not found"));
        },
    };
    locate_ticket(state, &key.station, key.order_id)
}

fn set_status(ticket: &mut KdsTicket, status: KdsTicketStatus, seq: u64)
    ensures
        final(ticket)@ == with_status(old(ticket)@, status, seq),
{
    ticket.status = status;
    ticket.updated_at_seq = seq;
}

/// The ticket after its line `lp` was started or finished.
fn set_line_status(ticket: &mut KdsTicket, lp: usize, line_status: KdsLineStatus, seq: u64)
    requires
        lp < old(ticket)@.lines.len(),
        line_status == KdsLineStatus::InProgress || line_status == KdsLineStatus::Done,
    ensures
        ({
            let t = old(ticket)@;
            let lines = t.lines.update(lp as int, KdsLineView { status: line_status, ..t.lines[lp as int] });
            final(ticket)@ == (KdsTicketView {
                lines,
                status: status_after_line(t, lines, line_status),
                updated_at_seq: seq,
                ..t
            })
        }),
{
    let ghost old_lines = ticket.lines@;
    let mut line = ticket.lines[lp].clone();
    line.status = line_status;
    ticket.lines.set(lp, line);
    proof {
        lemma_lines_view_update(old_lines, lp as int, line);
    }
    if line_status == KdsLineStatus::InProgress {
        if ticket.status == KdsTicketStatus::New || ticket.status == KdsTicketStatus::Acknowledged {
            ticket.status = KdsTicketStatus::InProgress;
        }
    } else if lines_finished(&ticket.lines) && !(ticket.status == KdsTicketStatus::Completed
        || ticket.status == KdsTicketStatus::Cancelled) {
        ticket.status = KdsTicketStatus::Ready;
    }
    ticket.updated_at_seq = seq;
}

fn add_note(ticket: &mut KdsTicket, note: &String, seq: u64)
    ensures
        final(ticket)@ == (KdsTicketView {
            notes: old(ticket)@.notes.push(*note),
            updated_at_seq: seq,
            ..old(ticket)@
        }),
{
    ticket.notes.push(note.clone());
    ticket.updated_at_seq = seq;
}

/// Applies one kitchen event, stamped `seq`, to the display.
///
/// The cursor moves to `seq` when that is later, whatever happens next.
/// Acknowledging, bumping and recalling set the ticket's status; starting a
/// line sets it in progress, and so its ticket if that was new or
/// acknowledged; finishing the last open line makes the ticket ready unless it
/// was completed or cancelled; a note is added to the ticket and logged.
pub fn apply_kds_event(state: &mut KdsState, event: &KdsEvent, seq: u64) -> (r: Result<(), PosError>)
    requires
        kds_wf(old(state)@),
    ensures
        kds_wf(final(state)@),
        final(state)@ == kds_after_kds_event(old(state)@, *event, seq).state,
        r is Ok <==> kds_after_kds_event(old(state)@, *event, seq).error is None,
        r matches Err(e) ==> kds_after_kds_event(old(state)@, *event, seq).error == Some(e@),
{
    if seq > state.cursor {
        state.cursor = seq;
    }
    let ghost s0 = state@;
    let ghost raw = state.tickets@;
    match event {
        KdsEvent::TicketAcknowledged { station, order_id, .. }
        | KdsEvent::TicketBumped { station, order_id, .. }
        | KdsEvent::TicketRecalled { station, order_id, .. } => {
            let status = match event {
                KdsEvent::TicketAcknowledged { .. } => KdsTicketStatus::Acknowledged,
                KdsEvent::TicketBumped { .. } => KdsTicketStatus::Completed,
                _ => KdsTicketStatus::InProgress,
            };
            let idx = match locate_ticket(state, station, *order_id) {
                Ok(i) => i,
                Err(e) => {
                    return Err(e);
                },
            };
            set_status(&mut state.tickets[idx], status, seq);
            proof {
                lemma_tickets_view_update(raw, idx as int, state.tickets@[idx as int]);
                lemma_sorted_update(s0.tickets, idx as int, state@.tickets[idx as int]);
            }
        },
        KdsEvent::LineStarted { line_id, .. } | KdsEvent::LineDone { line_id, .. } => {
            let line_status = match event {
                KdsEvent::LineStarted { .. } => KdsLineStatus::InProgress,
                _ => KdsLineStatus::Done,
            };
            let idx = match locate_ticket_by_line(state, *line_id) {
                Ok(i) => i,
                Err(e) => {
                    return Err(e);
                },
            };
            let lp = match find_line_index(&state.tickets[idx].lines, *line_id) {
                Some(p) => p,
                None => {
                    return Err(PosError::not_found("kds line not found"));
                },
            };
            set_line_status(&mut state.tickets[idx], lp, line_status, seq);
            proof {
                lemma_tickets_view_update(raw, idx as int, state.tickets@[idx as int]);
                lemma_sorted_update(s0.tickets, idx as int, state@.tickets[idx as int]);
            }
        },
        KdsEvent::TicketNoteAdded { station, order_id, note, .. } => {
            let idx = match locate_ticket(state, station, *order_id) {
                Ok(i) => i,
                Err(e) => {
                    return Err(e);
                },
            };
            add_note(&mut state.tickets[idx], note, seq);
            proof {
                lemma_tickets_view_update(raw, idx as int, state.tickets@[idx as int]);
                lemma_sorted_update(s0.tickets, idx as int, state@.tickets[idx as int]);
            }
            let ghost raw3 = state.changes@;
            state.changes.push(
                KdsChange {
                    seq,
                    station: station.clone(),
                    order_id: *order_id,
                    change: KdsChangeKind::TicketNoteAdded { note: note.clone() },
                },
            );
            proof {
                lemma_changes_view_push(raw3, state.changes@.last());
                assert(raw3.push(state.changes@.last()) =~= state.changes@);
            }
        },
    }
    Ok(())
}


// ---------------------------------------------------------------------------
// Core events

/// The sequence number an envelope is applied with: its own, or one past the
/// cursor when it has none.
pub open spec fn kds_event_seq(s: KdsStateView, env: EventEnvelope) -> u64 {
    match env.seq {
        Some(q) => q,
        None => (s.cursor + 1) as u64,
    }
}

/// What an event of any aggregate does to the display: order events are
/// projected; the others leave it as it is.
pub open spec fn kds_after_core_event(
    s: KdsStateView,
    env: EventEnvelope,
    routing: RoutingTable,
    table: Option<&Table>,
) -> KdsOutcome {
    match env.event {
        CoreEvent::Order(e) => kds_after_order_event(s, e, kds_event_seq(s, env), routing, table),
        _ => kds_ok(s),
    }
}

/// Projects an enveloped event onto the display; an envelope without a
/// sequence number is applied as the one after the cursor.
pub fn apply_core_event_to_kds(
    state: &mut KdsState,
    env: &EventEnvelope,
    routing: &RoutingTable,
    table: Option<&Table>,
) -> (r: Result<(), PosError>)
    requires
        kds_wf(old(state)@),
        env.seq is Some || old(state).cursor < u64::MAX,
    ensures
        kds_wf(final(state)@),
        final(state)@ == kds_after_core_event(old(state)@, *env, *routing, table).state,
        r is Ok <==> kds_after_core_event(old(state)@, *env, *routing, table).error is None,
        r matches Err(e) ==> kds_after_core_event(old(state)@, *env, *routing, table).error
            == Some(e@),
{
    let seq = match env.seq {
        Some(q) => q,
        None => state.cursor + 1,
    };
    match &env.event {
        CoreEvent::Order(order_event) => apply_order_event(state, order_event, seq, routing, table),
        _ => Ok(()),
    }
}

// ---------------------------------------------------------------------------
// Views for the kitchen

/// Position of the first line from `i` on whose id is larger than `id`, or the
/// length when there is none.
pub open spec fn upper_pos_from(s: Seq<KdsLineView>, id: u128, i: int) -> int
    decreases s.len() - i,
{
    if i >= s.len() {
        s.len() as int
    } else if s[i].line_id > id {
        i
    } else {
        upper_pos_from(s, id, i + 1)
    }
}

/// `l` put after every line whose id is not larger than its own.
pub open spec fn insert_line_sorted(s: Seq<KdsLineView>, l: KdsLineView) -> Seq<KdsLineView> {
    s.insert(upper_pos_from(s, l.line_id, 0), l)
}

/// The lines ordered by id (the bytes of a UUID are its big-endian bits);
/// lines with the same id keep their order.
pub open spec fn sort_lines(s: Seq<KdsLineView>) -> Seq<KdsLineView>
    decreases s.len(),
{
    if s.len() == 0 {
        s
    } else {
        insert_line_sorted(sort_lines(s.drop_last()), s.last())
    }
}

proof fn lemma_upper_pos_from(s: Seq<KdsLineView>, id: u128, i: int)
    requires
        0 <= i <= s.len(),
    ensures
        i <= upper_pos_from(s, id, i) <= s.len(),
    decreases s.len() - i,
{
    if i < s.len() && s[i].line_id <= id {
        lemma_upper_pos_from(s, id, i + 1);
    }
}

/// The lines ordered by id, stably.
pub fn sorted_lines(lines: &Vec<KdsLine>) -> (r: Vec<KdsLine>)
    ensures
        lines_view(r@) == sort_lines(lines_view(lines@)),
{
    let ghost src = lines_view(lines@);
    let mut out: Vec<KdsLine> = Vec::new();
    let mut i: usize = 0;
    assert(src.take(0) =~= Seq::<KdsLineView>::empty());
    assert(lines_view(out@) =~= Seq::<KdsLineView>::empty());
    while i < lines.len()
        invariant
            src == lines_view(lines@),
            i <= lines.len(),
            lines_view(out@) == sort_lines(src.take(i as int)),
        decreases lines.len() - i,
    {
        let line = lines[i].clone();
        let ghost ov = lines_view(out@);
        let mut p: usize = 0;
        while p < out.len() && out[p].line_id <= line.line_id
            invariant
                ov == lines_view(out@),
                p <= out.len(),
                upper_pos_from(ov, line.line_id, 0) == upper_pos_from(ov, line.line_id, p as int),
            decreases out.len() - p,
        {
            p += 1;
        }
        proof {
            lemma_upper_pos_from(ov, line.line_id, p as int);
            assert(src.take(i + 1).drop_last() =~= src.take(i as int));
            assert(src.take(i + 1).last() == line@);
        }
        let ghost raw = out@;
        out.insert(p, line);
        proof {
            assert(lines_view(out@) =~= lines_view(raw).insert(p as int, line@));
        }
        i += 1;
    }
    assert(src.take(i as int) =~= src);
    out
}

/// Whether a ticket belongs to the station asked for (any, when none is).
pub open spec fn station_matches(t: KdsTicketView, station: Option<Seq<char>>) -> bool {
    match station {
        Some(st) => t.station@ == st,
        None => true,
    }
}

/// A ticket with its lines ordered by id.
pub open spec fn with_sorted_lines(t: KdsTicketView) -> KdsTicketView {
    KdsTicketView { lines: sort_lines(t.lines), ..t }
}

/// The tickets of the station asked for (all, when none is), in key order,
/// each with its lines ordered by id.
pub open spec fn kitchen_view(ts: Seq<KdsTicketView>, station: Option<Seq<char>>) -> Seq<KdsTicketView>
    decreases ts.len(),
{
    if ts.len() == 0 {
        Seq::empty()
    } else {
        let prev = kitchen_view(ts.drop_last(), station);
        if station_matches(ts.last(), station) {
            prev.push(with_sorted_lines(ts.last()))
        } else {
            prev
        }
    }
}

/// The characters of an optional string.
pub open spec fn opt_str_view(s: Option<&str>) -> Option<Seq<char>> {
    match s {
        Some(x) => Some(x@),
        None => None,
    }
}

/// The tickets of a station (or of all stations), in key order, with their
/// lines ordered by id.
pub fn kitchen_tickets(state: &KdsState, station: Option<&str>) -> (r: Vec<KdsTicket>)
    ensures
        tickets_view(r@) == kitchen_view(state@.tickets, opt_str_view(station)),
        kds_wf(state@) ==> tickets_sorted(tickets_view(r@)),
{
    let ghost ts = state@.tickets;
    let ghost st = opt_str_view(station);
    let target: Option<String> = match station {
        Some(s) => Some(s.to_owned()),
        None => None,
    };
    let mut out: Vec<KdsTicket> = Vec::new();
    let mut i: usize = 0;
    assert(ts.take(0) =~= Seq::<KdsTicketView>::empty());
    assert(tickets_view(out@) =~= Seq::<KdsTicketView>::empty());
    while i < state.tickets.len()
        invariant
            ts == state@.tickets,
            st == opt_str_view(station),
            match target {
                Some(t) => st == Some(t@),
                None => st is None,
            },
            i <= state.tickets.len(),
            tickets_view(out@) == kitchen_view(ts.take(i as int), st),
        decreases state.tickets.len() - i,
    {
        let ticket = &state.tickets[i];
        let keep = match &target {
            Some(t) => ticket.station == *t,
            None => true,
        };
        proof {
            assert(ts.take(i + 1).drop_last() =~= ts.take(i as int));
            assert(ts.take(i + 1).last() == ts[i as int]);
            assert(keep == station_matches(ts[i as int], st));
        }
        if keep {
            let mut copy = ticket.clone();
            copy.lines = sorted_lines(&ticket.lines);
            let ghost raw = out@;
            out.push(copy);
            proof {
                assert(tickets_view(out@) =~= tickets_view(raw).push(copy@));
            }
        }
        i += 1;
    }
    assert(ts.take(i as int) =~= ts);
    proof {
        if kds_wf(state@) {
            super::laws::law_kitchen_view_in_order(ts, st);
        }
    }
    out
}

/// All tickets of all stations, as the expediter sees them.
pub fn expo_view(state: &KdsState) -> (r: Vec<KdsTicket>)
    ensures
        tickets_view(r@) == kitchen_view(state@.tickets, None),
        kds_wf(state@) ==> tickets_sorted(tickets_view(r@)),
{
    kitchen_tickets(state, None)
}

} // verus!
