//! Read-side questions about checks and tables.

use vstd::prelude::*;

use crate::amount::{dec_gt, Amount};
use crate::checks::{Check, CheckStatus};
use crate::ids::Money;
use crate::tables::{Table, TableStatus};
use crate::totals::{balance_due_value, totals, totals_currency, totals_fit};

verus! {

/// The check is open, has lines and nothing is left to pay.
pub open spec fn check_closable(c: crate::checks::CheckView) -> bool {
    &&& c.status == CheckStatus::Open
    &&& c.lines.len() > 0
    &&& balance_due_value(c) <= 0
}

/// Whether the check can be closed now: it is open, has lines and nothing
/// is left to pay, which is when closing it is accepted.
pub fn can_close_check(check: &Check) -> (r: bool)
    requires
        check.status == CheckStatus::Open && check.lines@.len() > 0 ==> totals_fit(*check),
    ensures
        r == check_closable(check@),
{
    if check.status != CheckStatus::Open {
        return false;
    }
    if check.lines.len() == 0 {
        return false;
    }
    let t = totals(check);
    !dec_gt(t.balance_due.amount, Amount::zero())
}

/// What is left to pay: the total less what was paid.
pub fn check_balance_due(check: &Check) -> (r: Money)
    requires
        totals_fit(*check),
    ensures
        r.amount@ == balance_due_value(check@),
        r.currency == totals_currency(check@),
{
    totals(check).balance_due
}

/// The table can host a new session: available and with no order.
pub fn table_is_available(table: &Table) -> (r: bool)
    ensures
        r == (table.status == TableStatus::Available && table.active_order_id is None),
{
    table.status == TableStatus::Available && table.active_order_id.is_none()
}

} // verus!
