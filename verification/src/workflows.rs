//! Workflows over two checks: splitting a check and moving quantity between
//! the two.

use vstd::prelude::*;

use crate::checks::{
    ensure_check_open, ensure_qty_positive, find_line, has_line, line_index, Check, CheckEvent,
    CheckStatus,
};
use crate::handler::{one, two};
use crate::ids::{uuid_text, uuid_to_string, CheckID, OrderItemID, PosError, PosErrorView, VenueID};

verus! {

/// The events that create a split check from `from`: the new check is opened
/// for the same order, then marked as split from `from`.
pub fn split_check_create(from: &Check, venue_id: VenueID, new_check_id: CheckID) -> (r: Result<
    Vec<CheckEvent>,
    PosError,
>)
    ensures
        r matches Ok(v) && v@ == seq![
            CheckEvent::CheckOpened { venue_id, check_id: new_check_id, order_id: from.order_id },
            CheckEvent::SplitCheckCreated {
                venue_id,
                check_id: new_check_id,
                from_check_id: from.check_id,
            },
        ],
{
    Ok(
        two(
            CheckEvent::CheckOpened { venue_id, check_id: new_check_id, order_id: from.order_id },
            CheckEvent::SplitCheckCreated {
                venue_id,
                check_id: new_check_id,
                from_check_id: from.check_id,
            },
        ),
    )
}

/// The reason recorded on the check a quantity leaves.
pub open spec fn moved_reason(to: CheckID) -> Seq<char> {
    "moved to check "@ + uuid_text(to.0)
}

/// What moving `qty` of an order item from one check to another decides.
pub open spec fn move_decision(
    from: Check,
    to: Check,
    venue_id: VenueID,
    order_item_id: OrderItemID,
    qty: u32,
) -> Result<(), PosErrorView> {
    if from.status != CheckStatus::Open || to.status != CheckStatus::Open {
        Err(PosErrorView::Validation("check is not open"@))
    } else if qty == 0 {
        Err(PosErrorView::Validation("qty must be >= 1"@))
    } else if from.order_id != to.order_id {
        Err(PosErrorView::Validation("cannot move line between checks of different orders"@))
    } else if !has_line(from@.lines, order_item_id) {
        Err(PosErrorView::NotFound("line not found on from_check"@))
    } else if from@.lines[line_index(from@.lines, order_item_id)].qty < qty {
        Err(PosErrorView::Validation("cannot move more qty than exists on from_check"@))
    } else {
        Ok(())
    }
}

/// The two events of a move: the quantity leaves `from`, with the move as the
/// reason, and a line with the same price and name joins `to`.
pub open spec fn move_events(
    v: Seq<CheckEvent>,
    from: Check,
    to: Check,
    venue_id: VenueID,
    order_item_id: OrderItemID,
    qty: u32,
) -> bool {
    let line = from.lines@[line_index(from@.lines, order_item_id)];
    &&& v.len() == 2
    &&& v[0] matches CheckEvent::LineQtyDecreased {
        venue_id: vid,
        check_id,
        order_item_id: oid,
        qty: q,
        reason,
    } && vid == venue_id && check_id == from.check_id && oid == order_item_id && q == qty
        && reason@ == moved_reason(to.check_id)
    &&& v[1] == CheckEvent::LineAdded {
        venue_id,
        check_id: to.check_id,
        order_item_id,
        qty,
        unit_price: line.unit_price,
        name: line.name,
    }
}

/// Moves `qty` of an order item from `from` to `to`: the quantity is taken
/// off `from` and a line with the same price and name is added to `to`.
pub fn split_check_move_line_qty(
    from: &Check,
    to: &Check,
    venue_id: VenueID,
    order_item_id: OrderItemID,
    qty: u32,
) -> (r: Result<Vec<CheckEvent>, PosError>)
    ensures
        match move_decision(*from, *to, venue_id, order_item_id, qty) {
            Err(e) => r matches Err(x) && x@ == e,
            Ok(_) => r matches Ok(v) && move_events(v@, *from, *to, venue_id, order_item_id, qty),
        },
{
    if let Err(e) = ensure_check_open(from) {
        return Err(e);
    }
    if let Err(e) = ensure_check_open(to) {
        return Err(e);
    }
    if let Err(e) = ensure_qty_positive(qty) {
        return Err(e);
    }
    // Splits happen between checks of one order.
    if from.order_id != to.order_id {
        return Err(PosError::validation("cannot move line between checks of different orders"));
    }
    let i = match find_line(&from.lines, order_item_id) {
        Some(i) => i,
        None => return Err(PosError::not_found("line not found on from_check")),
    };
    let from_line = &from.lines[i];
    if from_line.qty < qty {
        return Err(PosError::validation("cannot move more qty than exists on from_check"));
    }
    let mut reason = "moved to check ".to_owned();
    let id_text = uuid_to_string(to.check_id.0);
    reason.append(id_text.as_str());
    Ok(
        two(
            CheckEvent::LineQtyDecreased {
                venue_id,
                check_id: from.check_id,
                order_item_id,
                qty,
                reason,
            },
            CheckEvent::LineAdded {
                venue_id,
                check_id: to.check_id,
                order_item_id,
                qty,
                unit_price: from_line.unit_price,
                name: from_line.name.clone(),
            },
        ),
    )
}

} // verus!
