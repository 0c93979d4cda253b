//! What the kitchen does to its tickets.

use vstd::prelude::*;

use crate::ids::{OrderID, VenueID};
use super::model::StationId;

verus! {

#[derive(Debug)]
pub enum KdsEvent {
    TicketAcknowledged { venue_id: VenueID, station: StationId, order_id: OrderID },
    TicketBumped { venue_id: VenueID, station: StationId, order_id: OrderID },
    TicketRecalled { venue_id: VenueID, station: StationId, order_id: OrderID },
    LineStarted { venue_id: VenueID, station: StationId, order_id: OrderID, line_id: u128 },
    LineDone { venue_id: VenueID, station: StationId, order_id: OrderID, line_id: u128 },
    TicketNoteAdded { venue_id: VenueID, station: StationId, order_id: OrderID, note: String },
}

impl Clone for KdsEvent {
    fn clone(&self) -> (r: Self)
        ensures
            r == *self,
    {
        match self {
            KdsEvent::TicketAcknowledged { venue_id, station, order_id } =>
                KdsEvent::TicketAcknowledged {
                venue_id: *venue_id,
                station: station.clone(),
                order_id: *order_id,
            },
            KdsEvent::TicketBumped { venue_id, station, order_id } => KdsEvent::TicketBumped {
                venue_id: *venue_id,
                station: station.clone(),
                order_id: *order_id,
            },
            KdsEvent::TicketRecalled { venue_id, station, order_id } => KdsEvent::TicketRecalled {
                venue_id: *venue_id,
                station: station.clone(),
                order_id: *order_id,
            },
            KdsEvent::LineStarted { venue_id, station, order_id, line_id } =>
                KdsEvent::LineStarted {
                venue_id: *venue_id,
                station: station.clone(),
                order_id: *order_id,
                line_id: *line_id,
            },
            KdsEvent::LineDone { venue_id, station, order_id, line_id } => KdsEvent::LineDone {
                venue_id: *venue_id,
                station: station.clone(),
                order_id: *order_id,
                line_id: *line_id,
            },
            KdsEvent::TicketNoteAdded { venue_id, station, order_id, note } =>
                KdsEvent::TicketNoteAdded {
                venue_id: *venue_id,
                station: station.clone(),
                order_id: *order_id,
                note: note.clone(),
            },
        }
    }
}

} // verus!
