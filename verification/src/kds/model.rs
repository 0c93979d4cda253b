//! The kitchen display state: one ticket per order and station, the lines on
//! each ticket, and the log of changes that the printers read.

use vstd::prelude::*;
use vstd::utf8::encode_utf8;
use vstd::utf8::encode_utf8_decode_utf8;
use std::collections::HashMap;

use crate::ids::{OrderID, TableID, VenueID};
use crate::orders::clone_opt_string;

verus! {

broadcast use vstd::std_specs::hash::group_hash_axioms;

/// The name of a kitchen station ("grill", "bar", ...).
pub type StationId = String;

/// Identifies a ticket: the order it belongs to and the station that cooks it.
///
/// Keys are ordered by the order id's sixteen bytes, then by the bytes of the
/// station's name. `precedes` computes that order; the derived `Ord` gives the
/// same one, since the order id's bytes are its big-endian 128 bits.
#[derive(Debug, PartialEq, Eq, Hash, PartialOrd, Ord)]
pub struct KdsTicketKey {
    pub order_id: OrderID,
    pub station: StationId,
}

/// A ticket key with the station read as characters.
pub struct KdsTicketKeyView {
    pub order_id: OrderID,
    pub station: Seq<char>,
}

impl View for KdsTicketKey {
    type V = KdsTicketKeyView;

    open spec fn view(&self) -> KdsTicketKeyView {
        KdsTicketKeyView { order_id: self.order_id, station: self.station@ }
    }
}

impl Clone for KdsTicketKey {
    fn clone(&self) -> (r: Self)
        ensures
            r == *self,
    {
        KdsTicketKey { order_id: self.order_id, station: self.station.clone() }
    }
}

/// `a` comes strictly before `b` in lexicographic byte order, looking from
/// position `i` on (the bytes before `i` being equal).
pub open spec fn bytes_before_from(a: Seq<u8>, b: Seq<u8>, i: int) -> bool
    decreases a.len() - i,
{
    if i >= a.len() {
        i < b.len()
    } else if i >= b.len() {
        false
    } else if a[i] < b[i] {
        true
    } else if a[i] > b[i] {
        false
    } else {
        bytes_before_from(a, b, i + 1)
    }
}

/// Station names are ordered by the bytes of their UTF-8 encoding.
pub open spec fn station_before(a: Seq<char>, b: Seq<char>) -> bool {
    bytes_before_from(encode_utf8(a), encode_utf8(b), 0)
}

/// The order of ticket keys: by order id, then by station.
pub open spec fn key_before(a: KdsTicketKeyView, b: KdsTicketKeyView) -> bool {
    ||| a.order_id.0 < b.order_id.0
    ||| (a.order_id.0 == b.order_id.0 && station_before(a.station, b.station))
}

proof fn lemma_bytes_irreflexive(a: Seq<u8>, i: int)
    requires
        0 <= i,
    ensures
        !bytes_before_from(a, a, i),
    decreases a.len() - i,
{
    if i < a.len() {
        lemma_bytes_irreflexive(a, i + 1);
    }
}

proof fn lemma_bytes_transitive(a: Seq<u8>, b: Seq<u8>, c: Seq<u8>, i: int)
    requires
        0 <= i,
        bytes_before_from(a, b, i),
        bytes_before_from(b, c, i),
    ensures
        bytes_before_from(a, c, i),
    decreases a.len() - i,
{
    if i < a.len() && i < b.len() && i < c.len() && a[i] == b[i] && b[i] == c[i] {
        lemma_bytes_transitive(a, b, c, i + 1);
    }
}

proof fn lemma_bytes_total(a: Seq<u8>, b: Seq<u8>, i: int)
    requires
        0 <= i <= a.len(),
        i <= b.len(),
    ensures
        bytes_before_from(a, b, i) || bytes_before_from(b, a, i) || (a.len() == b.len() && forall|
            j: int,
        |
            i <= j < a.len() ==> a[j] == b[j]),
    decreases a.len() - i,
{
    if i < a.len() && i < b.len() && a[i] == b[i] {
        lemma_bytes_total(a, b, i + 1);
        if a.len() == b.len() && (forall|j: int| i + 1 <= j < a.len() ==> a[j] == b[j]) {
            assert forall|j: int| i <= j < a.len() implies a[j] == b[j] by {
                if j > i {
                }
            }
        }
    }
}

/// No key comes before itself.
pub proof fn lemma_key_irreflexive(k: KdsTicketKeyView)
    ensures
        !key_before(k, k),
{
    lemma_bytes_irreflexive(encode_utf8(k.station), 0);
}

/// The key order is transitive.
pub proof fn lemma_key_transitive(a: KdsTicketKeyView, b: KdsTicketKeyView, c: KdsTicketKeyView)
    requires
        key_before(a, b),
        key_before(b, c),
    ensures
        key_before(a, c),
{
    if a.order_id.0 == b.order_id.0 && b.order_id.0 == c.order_id.0 {
        lemma_bytes_transitive(encode_utf8(a.station), encode_utf8(b.station), encode_utf8(c.station), 0);
    }
}

/// Two keys either are equal or one comes before the other.
pub proof fn lemma_key_total(a: KdsTicketKeyView, b: KdsTicketKeyView)
    ensures
        key_before(a, b) || key_before(b, a) || a == b,
{
    if a.order_id.0 == b.order_id.0 {
        let ea = encode_utf8(a.station);
        let eb = encode_utf8(b.station);
        lemma_bytes_total(ea, eb, 0);
        if !station_before(a.station, b.station) && !station_before(b.station, a.station) {
            assert(ea =~= eb);
            encode_utf8_decode_utf8(a.station);
            encode_utf8_decode_utf8(b.station);
            assert(a.station == b.station);
        }
    }
}

/// A key that comes before another does not also come after it.
pub proof fn lemma_key_asymmetric(a: KdsTicketKeyView, b: KdsTicketKeyView)
    requires
        key_before(a, b),
    ensures
        !key_before(b, a),
{
    if key_before(b, a) {
        lemma_key_transitive(a, b, a);
        lemma_key_irreflexive(a);
    }
}

fn bytes_precede(a: &[u8], b: &[u8]) -> (r: bool)
    ensures
        r == bytes_before_from(a@, b@, 0),
{
    let mut i: usize = 0;
    while i < a.len() && i < b.len()
        invariant
            i <= a.len(),
            i <= b.len(),
            bytes_before_from(a@, b@, 0) == bytes_before_from(a@, b@, i as int),
        decreases a.len() - i,
    {
        if a[i] < b[i] {
            return true;
        }
        if a[i] > b[i] {
            return false;
        }
        i += 1;
    }
    i < b.len()
}

/// Whether the key made of `order_a` and `station_a` comes before the one made
/// of `order_b` and `station_b`.
pub(crate) fn key_parts_precede(order_a: OrderID, station_a: &str, order_b: OrderID, station_b: &str) -> (r: bool)
    ensures
        r == key_before(
            KdsTicketKeyView { order_id: order_a, station: station_a@ },
            KdsTicketKeyView { order_id: order_b, station: station_b@ },
        ),
{
    if order_a.0 < order_b.0 {
        true
    } else if order_a.0 > order_b.0 {
        false
    } else {
        bytes_precede(station_a.as_bytes(), station_b.as_bytes())
    }
}

impl KdsTicketKey {
    pub fn new(order_id: OrderID, station: StationId) -> (r: Self)
        ensures
            r == (KdsTicketKey { order_id, station }),
    {
        KdsTicketKey { order_id, station }
    }

    /// Whether this key comes strictly before `other` in ticket order.
    pub fn precedes(&self, other: &KdsTicketKey) -> (r: bool)
        ensures
            r == key_before(self@, other@),
    {
        key_parts_precede(self.order_id, self.station.as_str(), other.order_id, other.station.as_str())
    }
}

#[derive(Clone, Copy, Debug, PartialEq, Eq, Structural)]
pub enum KdsTicketStatus {
    New,
    Acknowledged,
    InProgress,
    Ready,
    Completed,
    Cancelled,
}

#[derive(Clone, Copy, Debug, PartialEq, Eq, Structural)]
pub enum KdsLineStatus {
    New,
    InProgress,
    Done,
    Voided,
}

/// A copy of a list of strings.
pub fn clone_strings(v: &Vec<String>) -> (r: Vec<String>)
    ensures
        r@ == v@,
{
    let mut r: Vec<String> = Vec::new();
    let mut i: usize = 0;
    while i < v.len()
        invariant
            i <= v.len(),
            r@ =~= v@.take(i as int),
        decreases v.len() - i,
    {
        r.push(v[i].clone());
        i += 1;
        assert(r@ =~= v@.take(i as int));
    }
    assert(v@.take(i as int) =~= v@);
    r
}

/// One line of a ticket: an order item, as the kitchen sees it.
#[derive(Debug, PartialEq, Eq)]
pub struct KdsLine {
    pub line_id: u128,
    pub name: String,
    pub qty: u32,
    pub modifiers: Vec<String>,
    pub note: Option<String>,
    pub status: KdsLineStatus,
}

pub struct KdsLineView {
    pub line_id: u128,
    pub name: String,
    pub qty: u32,
    pub modifiers: Seq<String>,
    pub note: Option<String>,
    pub status: KdsLineStatus,
}

impl View for KdsLine {
    type V = KdsLineView;

    open spec fn view(&self) -> KdsLineView {
        KdsLineView {
            line_id: self.line_id,
            name: self.name,
            qty: self.qty,
            modifiers: self.modifiers@,
            note: self.note,
            status: self.status,
        }
    }
}

impl Clone for KdsLine {
    fn clone(&self) -> (r: Self)
        ensures
            r@ == self@,
    {
        KdsLine {
            line_id: self.line_id,
            name: self.name.clone(),
            qty: self.qty,
            modifiers: clone_strings(&self.modifiers),
            note: clone_opt_string(&self.note),
            status: self.status,
        }
    }
}

pub open spec fn lines_view(ls: Seq<KdsLine>) -> Seq<KdsLineView> {
    ls.map_values(|l: KdsLine| l@)
}

/// A copy of a list of lines.
pub fn clone_lines(v: &Vec<KdsLine>) -> (r: Vec<KdsLine>)
    ensures
        lines_view(r@) == lines_view(v@),
{
    let mut r: Vec<KdsLine> = Vec::new();
    let mut i: usize = 0;
    while i < v.len()
        invariant
            i <= v.len(),
            r@.len() == i,
            forall|j: int| 0 <= j < i ==> (#[trigger] r@[j])@ == v@[j]@,
        decreases v.len() - i,
    {
        r.push(v[i].clone());
        i += 1;
    }
    assert(lines_view(r@) =~= lines_view(v@));
    r
}

/// What one station has to cook for one order.
#[derive(Debug, PartialEq, Eq)]
pub struct KdsTicket {
    pub ticket_id: u128,
    pub venue_id: VenueID,
    pub station: StationId,
    pub order_id: OrderID,
    pub table_id: Option<TableID>,
    pub table_label: Option<String>,
    pub status: KdsTicketStatus,
    pub created_at_seq: u64,
    pub updated_at_seq: u64,
    pub lines: Vec<KdsLine>,
    pub notes: Vec<String>,
}

pub struct KdsTicketView {
    pub ticket_id: u128,
    pub venue_id: VenueID,
    pub station: String,
    pub order_id: OrderID,
    pub table_id: Option<TableID>,
    pub table_label: Option<String>,
    pub status: KdsTicketStatus,
    pub created_at_seq: u64,
    pub updated_at_seq: u64,
    pub lines: Seq<KdsLineView>,
    pub notes: Seq<String>,
}

impl View for KdsTicket {
    type V = KdsTicketView;

    open spec fn view(&self) -> KdsTicketView {
        KdsTicketView {
            ticket_id: self.ticket_id,
            venue_id: self.venue_id,
            station: self.station,
            order_id: self.order_id,
            table_id: self.table_id,
            table_label: self.table_label,
            status: self.status,
            created_at_seq: self.created_at_seq,
            updated_at_seq: self.updated_at_seq,
            lines: lines_view(self.lines@),
            notes: self.notes@,
        }
    }
}

impl Clone for KdsTicket {
    fn clone(&self) -> (r: Self)
        ensures
            r@ == self@,
    {
        KdsTicket {
            ticket_id: self.ticket_id,
            venue_id: self.venue_id,
            station: self.station.clone(),
            order_id: self.order_id,
            table_id: self.table_id,
            table_label: clone_opt_string(&self.table_label),
            status: self.status,
            created_at_seq: self.created_at_seq,
            updated_at_seq: self.updated_at_seq,
            lines: clone_lines(&self.lines),
            notes: clone_strings(&self.notes),
        }
    }
}

pub open spec fn tickets_view(ts: Seq<KdsTicket>) -> Seq<KdsTicketView> {
    ts.map_values(|t: KdsTicket| t@)
}

/// The key of a ticket.
pub open spec fn ticket_key(t: KdsTicketView) -> KdsTicketKeyView {
    KdsTicketKeyView { order_id: t.order_id, station: t.station@ }
}

/// Tickets stand in strictly increasing key order, so no key occurs twice.
pub open spec fn tickets_sorted(ts: Seq<KdsTicketView>) -> bool {
    forall|i: int, j: int|
        0 <= i < j < ts.len() ==> key_before(ticket_key(#[trigger] ts[i]), ticket_key(#[trigger] ts[j]))
}

/// Replacing one ticket by another with the same key keeps the key order.
pub proof fn lemma_sorted_update(ts: Seq<KdsTicketView>, i: int, t: KdsTicketView)
    requires
        tickets_sorted(ts),
        0 <= i < ts.len(),
        ticket_key(t) == ticket_key(ts[i]),
    ensures
        tickets_sorted(ts.update(i, t)),
{
    let r = ts.update(i, t);
    assert forall|a: int, b: int| 0 <= a < b < r.len() implies key_before(
        ticket_key(#[trigger] r[a]),
        ticket_key(#[trigger] r[b]),
    ) by {
        assert(key_before(ticket_key(ts[a]), ticket_key(ts[b])));
    }
}

pub proof fn lemma_tickets_view_update(v: Seq<KdsTicket>, i: int, t: KdsTicket)
    requires
        0 <= i < v.len(),
    ensures
        tickets_view(v.update(i, t)) == tickets_view(v).update(i, t@),
{
    assert(tickets_view(v.update(i, t)) =~= tickets_view(v).update(i, t@));
}

pub proof fn lemma_lines_view_update(v: Seq<KdsLine>, i: int, l: KdsLine)
    requires
        0 <= i < v.len(),
    ensures
        lines_view(v.update(i, l)) == lines_view(v).update(i, l@),
{
    assert(lines_view(v.update(i, l)) =~= lines_view(v).update(i, l@));
}

pub proof fn lemma_lines_view_push(v: Seq<KdsLine>, l: KdsLine)
    ensures
        lines_view(v.push(l)) == lines_view(v).push(l@),
{
    assert(lines_view(v.push(l)) =~= lines_view(v).push(l@));
}

/// A copy of a list of tickets.
pub fn clone_tickets(v: &Vec<KdsTicket>) -> (r: Vec<KdsTicket>)
    ensures
        tickets_view(r@) == tickets_view(v@),
{
    let mut r: Vec<KdsTicket> = Vec::new();
    let mut i: usize = 0;
    while i < v.len()
        invariant
            i <= v.len(),
            r@.len() == i,
            forall|j: int| 0 <= j < i ==> (#[trigger] r@[j])@ == v@[j]@,
        decreases v.len() - i,
    {
        r.push(v[i].clone());
        i += 1;
    }
    assert(tickets_view(r@) =~= tickets_view(v@));
    r
}

/// What changed on a ticket, as the printers need it.
#[derive(Debug, PartialEq, Eq)]
pub enum KdsChangeKind {
    LineAdded {
        line_id: u128,
        name: String,
        qty: u32,
        modifiers: Vec<String>,
        note: Option<String>,
    },
    LineVoided {
        line_id: u128,
        name: String,
        qty: u32,
        modifiers: Vec<String>,
        note: Option<String>,
    },
    LineQtyChanged {
        line_id: u128,
        name: String,
        from_qty: u32,
        to_qty: u32,
        modifiers: Vec<String>,
        note: Option<String>,
    },
    TicketNoteAdded { note: String },
}

pub enum KdsChangeKindView {
    LineAdded {
        line_id: u128,
        name: String,
        qty: u32,
        modifiers: Seq<String>,
        note: Option<String>,
    },
    LineVoided {
        line_id: u128,
        name: String,
        qty: u32,
        modifiers: Seq<String>,
        note: Option<String>,
    },
    LineQtyChanged {
        line_id: u128,
        name: String,
        from_qty: u32,
        to_qty: u32,
        modifiers: Seq<String>,
        note: Option<String>,
    },
    TicketNoteAdded { note: String },
}

impl View for KdsChangeKind {
    type V = KdsChangeKindView;

    open spec fn view(&self) -> KdsChangeKindView {
        match self {
            KdsChangeKind::LineAdded { line_id, name, qty, modifiers, note } =>
                KdsChangeKindView::LineAdded {
                line_id: *line_id,
                name: *name,
                qty: *qty,
                modifiers: modifiers@,
                note: *note,
            },
            KdsChangeKind::LineVoided { line_id, name, qty, modifiers, note } =>
                KdsChangeKindView::LineVoided {
                line_id: *line_id,
                name: *name,
                qty: *qty,
                modifiers: modifiers@,
                note: *note,
            },
            KdsChangeKind::LineQtyChanged { line_id, name, from_qty, to_qty, modifiers, note } =>
                KdsChangeKindView::LineQtyChanged {
                line_id: *line_id,
                name: *name,
                from_qty: *from_qty,
                to_qty: *to_qty,
                modifiers: modifiers@,
                note: *note,
            },
            KdsChangeKind::TicketNoteAdded { note } => KdsChangeKindView::TicketNoteAdded {
                note: *note,
            },
        }
    }
}

impl Clone for KdsChangeKind {
    fn clone(&self) -> (r: Self)
        ensures
            r@ == self@,
    {
        match self {
            KdsChangeKind::LineAdded { line_id, name, qty, modifiers, note } =>
                KdsChangeKind::LineAdded {
                line_id: *line_id,
                name: name.clone(),
                qty: *qty,
                modifiers: clone_strings(modifiers),
                note: clone_opt_string(note),
            },
            KdsChangeKind::LineVoided { line_id, name, qty, modifiers, note } =>
                KdsChangeKind::LineVoided {
                line_id: *line_id,
                name: name.clone(),
                qty: *qty,
                modifiers: clone_strings(modifiers),
                note: clone_opt_string(note),
            },
            KdsChangeKind::LineQtyChanged { line_id, name, from_qty, to_qty, modifiers, note } =>
                KdsChangeKind::LineQtyChanged {
                line_id: *line_id,
                name: name.clone(),
                from_qty: *from_qty,
                to_qty: *to_qty,
                modifiers: clone_strings(modifiers),
                note: clone_opt_string(note),
            },
            KdsChangeKind::TicketNoteAdded { note } => KdsChangeKind::TicketNoteAdded {
                note: note.clone(),
            },
        }
    }
}

/// One entry of the change log, stamped with the event sequence that made it.
#[derive(Debug, PartialEq, Eq)]
pub struct KdsChange {
    pub seq: u64,
    pub station: StationId,
    pub order_id: OrderID,
    pub change: KdsChangeKind,
}

pub struct KdsChangeView {
    pub seq: u64,
    pub station: String,
    pub order_id: OrderID,
    pub change: KdsChangeKindView,
}

impl View for KdsChange {
    type V = KdsChangeView;

    open spec fn view(&self) -> KdsChangeView {
        KdsChangeView {
            seq: self.seq,
            station: self.station,
            order_id: self.order_id,
            change: self.change@,
        }
    }
}

impl Clone for KdsChange {
    fn clone(&self) -> (r: Self)
        ensures
            r@ == self@,
    {
        KdsChange {
            seq: self.seq,
            station: self.station.clone(),
            order_id: self.order_id,
            change: self.change.clone(),
        }
    }
}

pub open spec fn changes_view(cs: Seq<KdsChange>) -> Seq<KdsChangeView> {
    cs.map_values(|c: KdsChange| c@)
}

pub proof fn lemma_changes_view_push(v: Seq<KdsChange>, c: KdsChange)
    ensures
        changes_view(v.push(c)) == changes_view(v).push(c@),
{
    assert(changes_view(v.push(c)) =~= changes_view(v).push(c@));
}

/// A copy of a change log.
pub fn clone_changes(v: &Vec<KdsChange>) -> (r: Vec<KdsChange>)
    ensures
        changes_view(r@) == changes_view(v@),
{
    let mut r: Vec<KdsChange> = Vec::new();
    let mut i: usize = 0;
    while i < v.len()
        invariant
            i <= v.len(),
            r@.len() == i,
            forall|j: int| 0 <= j < i ==> (#[trigger] r@[j])@ == v@[j]@,
        decreases v.len() - i,
    {
        r.push(v[i].clone());
        i += 1;
    }
    assert(changes_view(r@) =~= changes_view(v@));
    r
}

/// The projected kitchen display of a venue.
///
/// `tickets` stands in key order, one ticket per key; `item_to_ticket` and
/// `line_to_ticket` map order item ids and line ids (as their 128 bits) to the
/// key of the ticket that holds them; `changes` is the log that printers read.
#[derive(Debug)]
pub struct KdsState {
    pub tickets: Vec<KdsTicket>,
    pub cursor: u64,
    pub item_to_ticket: HashMap<u128, KdsTicketKey>,
    pub line_to_ticket: HashMap<u128, KdsTicketKey>,
    pub changes: Vec<KdsChange>,
}

pub struct KdsStateView {
    pub tickets: Seq<KdsTicketView>,
    pub cursor: u64,
    pub item_to_ticket: Map<u128, KdsTicketKey>,
    pub line_to_ticket: Map<u128, KdsTicketKey>,
    pub changes: Seq<KdsChangeView>,
}

impl View for KdsState {
    type V = KdsStateView;

    open spec fn view(&self) -> KdsStateView {
        KdsStateView {
            tickets: tickets_view(self.tickets@),
            cursor: self.cursor,
            item_to_ticket: self.item_to_ticket@,
            line_to_ticket: self.line_to_ticket@,
            changes: changes_view(self.changes@),
        }
    }
}

/// The state's tickets are in strictly increasing key order.
pub open spec fn kds_wf(s: KdsStateView) -> bool {
    tickets_sorted(s.tickets)
}

/// The empty display: no ticket, no mapping, no change, cursor at zero.
pub open spec fn empty_kds() -> KdsStateView {
    KdsStateView {
        tickets: Seq::empty(),
        cursor: 0,
        item_to_ticket: Map::empty(),
        line_to_ticket: Map::empty(),
        changes: Seq::empty(),
    }
}

impl KdsState {
    pub fn new() -> (r: Self)
        ensures
            r@ == empty_kds(),
            kds_wf(r@),
    {
        let r = KdsState {
            tickets: Vec::new(),
            cursor: 0,
            item_to_ticket: HashMap::new(),
            line_to_ticket: HashMap::new(),
            changes: Vec::new(),
        };
        assert(r@.tickets =~= Seq::<KdsTicketView>::empty());
        assert(r@.changes =~= Seq::<KdsChangeView>::empty());
        r
    }
}

impl Default for KdsState {
    fn default() -> (r: Self)
        ensures
            r@ == empty_kds(),
    {
        KdsState::new()
    }
}

impl Clone for KdsState {
    fn clone(&self) -> (r: Self)
        ensures
            r@ == self@,
    {
        KdsState {
            tickets: clone_tickets(&self.tickets),
            cursor: self.cursor,
            item_to_ticket: self.item_to_ticket.clone(),
            line_to_ticket: self.line_to_ticket.clone(),
            changes: clone_changes(&self.changes),
        }
    }
}

} // verus!
