//! What the host's storage of kitchen display state must provide.

use vstd::prelude::*;

use crate::ids::{PosError, VenueID};
use super::model::KdsState;
use super::printing::KdsPrintCursor;

verus! {

/// Host-facing storage of a venue's projected display.
pub trait KdsStateStore {
    fn load_state(&self, venue_id: VenueID) -> Result<KdsState, PosError>;

    fn save_state(&self, venue_id: VenueID, state: &KdsState) -> Result<(), PosError>;
}

/// Host-facing storage of the printers' cursors, one per station.
pub trait KdsCursorStore {
    fn load_cursor(&self, venue_id: VenueID, station: &str) -> Result<KdsPrintCursor, PosError>;

    fn save_cursor(&self, venue_id: VenueID, cursor: &KdsPrintCursor) -> Result<(), PosError>;
}

} // verus!
