//! What the station printers print: whole tickets, or only what changed
//! since the last print.

use vstd::prelude::*;

use crate::ids::{OrderID, TableID, VenueID};
use crate::orders::clone_opt_string;
use super::model::{
    KdsChangeKind, KdsChangeKindView, KdsChangeView, KdsLineStatus, KdsLineView, KdsState,
    KdsTicket, KdsTicketKeyView, KdsTicketView, StationId, clone_strings,
    lines_view, tickets_view,
};
use super::projector::{
    all_lines_finished, find_ticket_index, kitchen_tickets, kitchen_view, lines_finished,
    opt_str_view, sort_lines, sorted_lines, ticket_pos,
};

verus! {

/// The last change a station's printer has printed.
#[derive(Debug, PartialEq, Eq)]
pub struct KdsPrintCursor {
    pub station: StationId,
    pub last_seq: u64,
}

impl Clone for KdsPrintCursor {
    fn clone(&self) -> (r: Self)
        ensures
            r == *self,
    {
        KdsPrintCursor { station: self.station.clone(), last_seq: self.last_seq }
    }
}

#[derive(Clone, Copy, Debug, PartialEq, Eq, Structural)]
pub enum KdsDeltaKind {
    Added,
    Voided,
    QtyChanged { from_qty: u32, to_qty: u32 },
}

/// One line of a delta ticket: what happened to an item.
#[derive(Debug, PartialEq, Eq)]
pub struct KdsDeltaLine {
    pub line_id: u128,
    pub name: String,
    pub qty: u32,
    pub modifiers: Vec<String>,
    pub note: Option<String>,
    pub kind: KdsDeltaKind,
}

pub struct KdsDeltaLineView {
    pub line_id: u128,
    pub name: String,
    pub qty: u32,
    pub modifiers: Seq<String>,
    pub note: Option<String>,
    pub kind: KdsDeltaKind,
}

impl View for KdsDeltaLine {
    type V = KdsDeltaLineView;

    open spec fn view(&self) -> KdsDeltaLineView {
        KdsDeltaLineView {
            line_id: self.line_id,
            name: self.name,
            qty: self.qty,
            modifiers: self.modifiers@,
            note: self.note,
            kind: self.kind,
        }
    }
}

pub open spec fn delta_lines_view(ls: Seq<KdsDeltaLine>) -> Seq<KdsDeltaLineView> {
    ls.map_values(|l: KdsDeltaLine| l@)
}

/// What changed on one ticket since the last print.
#[derive(Debug, PartialEq, Eq)]
pub struct KdsDeltaTicket {
    pub ticket_id: u128,
    pub venue_id: VenueID,
    pub station: StationId,
    pub order_id: OrderID,
    pub table_id: Option<TableID>,
    pub table_label: Option<String>,
    pub seq: u64,
    pub lines: Vec<KdsDeltaLine>,
}

pub struct KdsDeltaTicketView {
    pub ticket_id: u128,
    pub venue_id: VenueID,
    pub station: String,
    pub order_id: OrderID,
    pub table_id: Option<TableID>,
    pub table_label: Option<String>,
    pub seq: u64,
    pub lines: Seq<KdsDeltaLineView>,
}

impl View for KdsDeltaTicket {
    type V = KdsDeltaTicketView;

    open spec fn view(&self) -> KdsDeltaTicketView {
        KdsDeltaTicketView {
            ticket_id: self.ticket_id,
            venue_id: self.venue_id,
            station: self.station,
            order_id: self.order_id,
            table_id: self.table_id,
            table_label: self.table_label,
            seq: self.seq,
            lines: delta_lines_view(self.lines@),
        }
    }
}

pub open spec fn deltas_view(ds: Seq<KdsDeltaTicket>) -> Seq<KdsDeltaTicketView> {
    ds.map_values(|d: KdsDeltaTicket| d@)
}

/// A whole ticket, ready to print.
#[derive(Debug, PartialEq, Eq)]
pub struct PrintableTicket {
    pub ticket: KdsTicket,
}

pub open spec fn printables_view(ps: Seq<PrintableTicket>) -> Seq<KdsTicketView> {
    ps.map_values(|p: PrintableTicket| p.ticket@)
}

/// One line of a printed ticket.
#[derive(Debug, PartialEq, Eq)]
pub struct PrintableLine {
    pub line_id: u128,
    pub name: String,
    pub qty: u32,
    pub modifiers: Vec<String>,
    pub note: Option<String>,
    pub status: KdsLineStatus,
}

impl View for PrintableLine {
    type V = KdsLineView;

    open spec fn view(&self) -> KdsLineView {
        KdsLineView {
            line_id: self.line_id,
            name: self.name,
            qty: self.qty,
            modifiers: self.modifiers@,
            note: self.note,
            status: self.status,
        }
    }
}

pub open spec fn printable_lines_view(ls: Seq<PrintableLine>) -> Seq<KdsLineView> {
    ls.map_values(|l: PrintableLine| l@)
}

/// The tickets of a station (or of all stations) to print whole: those of
/// `kitchen_tickets`, in the same order.
pub fn tickets_for_printing(state: &KdsState, station: Option<&str>) -> (r: Vec<PrintableTicket>)
    ensures
        printables_view(r@) == kitchen_view(state@.tickets, opt_str_view(station)),
{
    let mut tickets = kitchen_tickets(state, station);
    let ghost tv = tickets_view(tickets@);
    let n = tickets.len();
    let mut out: Vec<PrintableTicket> = Vec::new();
    let mut k: usize = 0;
    while tickets.len() > 0
        invariant
            k + tickets.len() == n,
            tv.len() == n,
            tickets_view(tickets@) == tv.skip(k as int),
            printables_view(out@) == tv.take(k as int),
        decreases tickets.len(),
    {
        let ghost before = tickets@;
        let ticket = tickets.remove(0);
        proof {
            assert(tickets_view(tickets@) =~= tickets_view(before).skip(1));
            assert(tickets_view(before)[0] == before[0]@);
            assert(tv.skip(k as int)[0] == tv[k as int]);
            assert(ticket@ == tv[k as int]);
        }
        let ghost raw = out@;
        out.push(PrintableTicket { ticket });
        proof {
            assert(printables_view(out@) =~= printables_view(raw).push(ticket@));
            assert(tv.take(k + 1) =~= tv.take(k as int).push(tv[k as int]));
            assert(tv.skip(k + 1) =~= tv.skip(k as int).skip(1));
        }
        k += 1;
    }
    assert(tv.take(k as int) =~= tv);
    out
}

/// The delta line for a change: lines added, voided or re-counted give one;
/// a note gives none.
pub open spec fn delta_line_of(c: KdsChangeKindView) -> Option<KdsDeltaLineView> {
    match c {
        KdsChangeKindView::LineAdded { line_id, name, qty, modifiers, note } => Some(
            KdsDeltaLineView { line_id, name, qty, modifiers, note, kind: KdsDeltaKind::Added },
        ),
        KdsChangeKindView::LineVoided { line_id, name, qty, modifiers, note } => Some(
            KdsDeltaLineView { line_id, name, qty, modifiers, note, kind: KdsDeltaKind::Voided },
        ),
        KdsChangeKindView::LineQtyChanged { line_id, name, from_qty, to_qty, modifiers, note } =>
            Some(
            KdsDeltaLineView {
                line_id,
                name,
                qty: to_qty,
                modifiers,
                note,
                kind: KdsDeltaKind::QtyChanged { from_qty, to_qty },
            },
        ),
        KdsChangeKindView::TicketNoteAdded { .. } => None,
    }
}

/// The delta line for a change, if it concerns a line.
pub fn delta_line_from_change(change: &KdsChangeKind) -> (r: Option<KdsDeltaLine>)
    ensures
        match r {
            Some(l) => delta_line_of(change@) == Some(l@),
            None => delta_line_of(change@) is None,
        },
{
    match change {
        KdsChangeKind::LineAdded { line_id, name, qty, modifiers, note } => Some(
            KdsDeltaLine {
                line_id: *line_id,
                name: name.clone(),
                qty: *qty,
                modifiers: clone_strings(modifiers),
                note: clone_opt_string(note),
                kind: KdsDeltaKind::Added,
            },
        ),
        KdsChangeKind::LineVoided { line_id, name, qty, modifiers, note } => Some(
            KdsDeltaLine {
                line_id: *line_id,
                name: name.clone(),
                qty: *qty,
                modifiers: clone_strings(modifiers),
                note: clone_opt_string(note),
                kind: KdsDeltaKind::Voided,
            },
        ),
        KdsChangeKind::LineQtyChanged { line_id, name, from_qty, to_qty, modifiers, note } => Some(
            KdsDeltaLine {
                line_id: *line_id,
                name: name.clone(),
                qty: *to_qty,
                modifiers: clone_strings(modifiers),
                note: clone_opt_string(note),
                kind: KdsDeltaKind::QtyChanged { from_qty: *from_qty, to_qty: *to_qty },
            },
        ),
        KdsChangeKind::TicketNoteAdded { .. } => None,
    }
}

/// Position of the first delta ticket from `i` on for this order and
/// station, or -1.
pub open spec fn delta_pos_from(ds: Seq<KdsDeltaTicketView>, order_id: OrderID, station: Seq<char>, i: int) -> int
    decreases ds.len() - i,
{
    if i >= ds.len() {
        -1
    } else if ds[i].order_id == order_id && ds[i].station@ == station {
        i
    } else {
        delta_pos_from(ds, order_id, station, i + 1)
    }
}

pub open spec fn max_seq(a: u64, b: u64) -> u64 {
    if a >= b {
        a
    } else {
        b
    }
}

/// The delta tickets for a station, built change by change: each change after
/// `last_seq` at the station that concerns a line adds that line to the delta
/// ticket of its order (made, from the ticket it belongs to, at its first
/// line; skipped when there is no such ticket).
pub open spec fn deltas_since(
    ts: Seq<KdsTicketView>,
    cs: Seq<KdsChangeView>,
    station: Seq<char>,
    last_seq: u64,
) -> Seq<KdsDeltaTicketView>
    decreases cs.len(),
{
    if cs.len() == 0 {
        Seq::empty()
    } else {
        let prev = deltas_since(ts, cs.drop_last(), station, last_seq);
        let c = cs.last();
        if c.seq > last_seq && c.station@ == station {
            match delta_line_of(c.change) {
                None => prev,
                Some(dl) => {
                    let di = delta_pos_from(prev, c.order_id, c.station@, 0);
                    if di >= 0 {
                        prev.update(
                            di,
                            KdsDeltaTicketView {
                                lines: prev[di].lines.push(dl),
                                seq: max_seq(prev[di].seq, c.seq),
                                ..prev[di]
                            },
                        )
                    } else {
                        let p = ticket_pos(
                            ts,
                            KdsTicketKeyView { order_id: c.order_id, station: c.station@ },
                        );
                        if p < 0 {
                            prev
                        } else {
                            let t = ts[p];
                            prev.push(
                                KdsDeltaTicketView {
                                    ticket_id: t.ticket_id,
                                    venue_id: t.venue_id,
                                    station: c.station,
                                    order_id: c.order_id,
                                    table_id: t.table_id,
                                    table_label: t.table_label,
                                    seq: c.seq,
                                    lines: seq![dl],
                                },
                            )
                        }
                    }
                }
            }
        } else {
            prev
        }
    }
}

fn find_delta(ds: &Vec<KdsDeltaTicket>, order_id: OrderID, station: &String) -> (r: Option<usize>)
    ensures
        ({
            let p = delta_pos_from(deltas_view(ds@), order_id, station@, 0);
            match r {
                Some(i) => i as int == p && i < ds@.len(),
                None => p == -1,
            }
        }),
{
    let ghost dv = deltas_view(ds@);
    let mut i: usize = 0;
    while i < ds.len()
        invariant
            dv == deltas_view(ds@),
            i <= ds.len(),
            delta_pos_from(dv, order_id, station@, 0) == delta_pos_from(dv, order_id, station@, i as int),
        decreases ds.len() - i,
    {
        if ds[i].order_id == order_id && ds[i].station == *station {
            return Some(i);
        }
        i += 1;
    }
    None
}

fn append_delta_line(d: &mut KdsDeltaTicket, line: KdsDeltaLine, seq: u64)
    ensures
        final(d)@ == (KdsDeltaTicketView {
            lines: old(d)@.lines.push(line@),
            seq: max_seq(old(d)@.seq, seq),
            ..old(d)@
        }),
{
    let ghost raw = d.lines@;
    d.lines.push(line);
    proof {
        assert(delta_lines_view(d.lines@) =~= delta_lines_view(raw).push(line@));
    }
    if seq > d.seq {
        d.seq = seq;
    }
}

/// What changed at a station since `last_seq`: one delta ticket per order, in
/// the order their first change came, with a line per change.
pub fn delta_tickets_since(state: &KdsState, station: &str, last_seq: u64) -> (r: Vec<KdsDeltaTicket>)
    ensures
        deltas_view(r@) == deltas_since(state@.tickets, state@.changes, station@, last_seq),
{
    let ghost ts = state@.tickets;
    let ghost cs = state@.changes;
    let target = station.to_owned();
    let mut out: Vec<KdsDeltaTicket> = Vec::new();
    let mut i: usize = 0;
    assert(cs.take(0) =~= Seq::<KdsChangeView>::empty());
    assert(deltas_view(out@) =~= Seq::<KdsDeltaTicketView>::empty());
    while i < state.changes.len()
        invariant
            ts == state@.tickets,
            cs == state@.changes,
            target@ == station@,
            i <= state.changes.len(),
            deltas_view(out@) == deltas_since(ts, cs.take(i as int), station@, last_seq),
        decreases state.changes.len() - i,
    {
        let change = &state.changes[i];
        proof {
            assert(cs.take(i + 1).drop_last() =~= cs.take(i as int));
            assert(cs.take(i + 1).last() == cs[i as int]);
            assert(cs[i as int] == change@);
        }
        if change.seq > last_seq && change.station == target {
            match delta_line_from_change(&change.change) {
                None => {},
                Some(dl) => {
                    match find_delta(&out, change.order_id, &change.station) {
                        Some(di) => {
                            let ghost raw = out@;
                            append_delta_line(&mut out[di], dl, change.seq);
                            proof {
                                assert(deltas_view(out@) =~= deltas_view(raw).update(
                                    di as int,
                                    out@[di as int]@,
                                ));
                            }
                        },
                        None => {
                            match find_ticket_index(&state.tickets, change.order_id, &change.station) {
                                Some(p) => {
                                    let ticket = &state.tickets[p];
                                    let ghost dl_view = dl@;
                                    let mut lines: Vec<KdsDeltaLine> = Vec::new();
                                    lines.push(dl);
                                    let d = KdsDeltaTicket {
                                        ticket_id: ticket.ticket_id,
                                        venue_id: ticket.venue_id,
                                        station: change.station.clone(),
                                        order_id: change.order_id,
                                        table_id: ticket.table_id,
                                        table_label: clone_opt_string(&ticket.table_label),
                                        seq: change.seq,
                                        lines,
                                    };
                                    assert(d@.lines =~= seq![dl_view]);
                                    let ghost raw = out@;
                                    out.push(d);
                                    proof {
                                        assert(deltas_view(out@) =~= deltas_view(raw).push(d@));
                                    }
                                },
                                None => {},
                            }
                        },
                    }
                },
            }
        }
        i += 1;
    }
    assert(cs.take(i as int) =~= cs);
    out
}

/// The lines of a ticket to print, ordered by id.
pub fn printable_lines_from_ticket(ticket: &KdsTicket) -> (r: Vec<PrintableLine>)
    ensures
        printable_lines_view(r@) == sort_lines(ticket@.lines),
{
    let sorted = sorted_lines(&ticket.lines);
    let ghost sv = lines_view(sorted@);
    let mut out: Vec<PrintableLine> = Vec::new();
    let mut i: usize = 0;
    while i < sorted.len()
        invariant
            sv == lines_view(sorted@),
            i <= sorted.len(),
            out@.len() == i,
            forall|j: int| 0 <= j < i ==> (#[trigger] out@[j])@ == sv[j],
        decreases sorted.len() - i,
    {
        let line = &sorted[i];
        out.push(
            PrintableLine {
                line_id: line.line_id,
                name: line.name.clone(),
                qty: line.qty,
                modifiers: clone_strings(&line.modifiers),
                note: clone_opt_string(&line.note),
                status: line.status,
            },
        );
        i += 1;
    }
    assert(printable_lines_view(out@) =~= sv);
    out
}

/// Some line of the ticket is not voided.
pub open spec fn has_active_line(ls: Seq<KdsLineView>) -> bool {
    exists|i: int| 0 <= i < ls.len() && (#[trigger] ls[i]).status != KdsLineStatus::Voided
}

/// Whether some line of the ticket is still to be made (not voided).
pub fn ticket_has_active_lines(ticket: &KdsTicket) -> (r: bool)
    ensures
        r == has_active_line(ticket@.lines),
{
    let ghost ls = ticket@.lines;
    let mut i: usize = 0;
    while i < ticket.lines.len()
        invariant
            ls == ticket@.lines,
            i <= ticket.lines.len(),
            forall|j: int| 0 <= j < i ==> (#[trigger] ls[j]).status == KdsLineStatus::Voided,
        decreases ticket.lines.len() - i,
    {
        if ticket.lines[i].status != KdsLineStatus::Voided {
            assert(ls[i as int].status != KdsLineStatus::Voided);
            return true;
        }
        i += 1;
    }
    false
}

/// Whether every line of the ticket is done or voided.
pub fn ticket_is_ready(ticket: &KdsTicket) -> (r: bool)
    ensures
        r == all_lines_finished(ticket@.lines),
{
    lines_finished(&ticket.lines)
}

} // verus!
