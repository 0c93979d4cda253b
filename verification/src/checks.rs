//! The check aggregate: the bill of an order, its lines, adjustments and
//! payments, and the rules that guard it.

use vstd::prelude::*;

use crate::amount::{dec_gt, dec_sub, sum_fits, Amount};
use crate::ids::{
    err_is, CheckID, Currency, Money, OrderID, OrderItemID, PaymentID, PosError, PosErrorView, VenueID,
};
use crate::orders::clone_opt_string;

verus! {

/// Money with its amount read as a value (units of `10^-28`).
pub struct MoneyView {
    pub amount: int,
    pub currency: Currency,
}

impl View for Money {
    type V = MoneyView;

    open spec fn view(&self) -> MoneyView {
        MoneyView { amount: self.amount@, currency: self.currency }
    }
}

#[derive(Debug)]
pub struct Check {
    pub venue_id: VenueID,
    pub check_id: CheckID,
    pub order_id: OrderID,
    pub status: CheckStatus,
    /// Items on this check (references to order item ids and a quantity).
    pub lines: Vec<CheckLine>,
    pub discount: Option<Discount>,
    pub service_charge: Option<ServiceCharge>,
    pub payments: Vec<Payment>,
    pub version: u64,
}

#[derive(Clone, Copy, Debug, PartialEq, Eq, Structural)]
pub enum CheckStatus {
    Open,
    Closed,
    Voided,
}

#[derive(Debug)]
pub struct CheckLine {
    pub order_item_id: OrderItemID,
    pub qty: u32,
    pub unit_price: Money,
    pub name: String,
}

pub struct CheckLineView {
    pub order_item_id: OrderItemID,
    pub qty: u32,
    pub unit_price: MoneyView,
    pub name: String,
}

impl View for CheckLine {
    type V = CheckLineView;

    open spec fn view(&self) -> CheckLineView {
        CheckLineView {
            order_item_id: self.order_item_id,
            qty: self.qty,
            unit_price: self.unit_price@,
            name: self.name,
        }
    }
}

impl Clone for CheckLine {
    fn clone(&self) -> (r: Self)
        ensures
            r == *self,
    {
        CheckLine {
            order_item_id: self.order_item_id,
            qty: self.qty,
            unit_price: self.unit_price,
            name: self.name.clone(),
        }
    }
}

/// A percentage off the subtotal (0..=100).
#[derive(Debug)]
pub enum Discount {
    Percent { label: String, percent: u8 },
}

/// A percentage added to the discounted subtotal (0..=100).
#[derive(Debug)]
pub enum ServiceCharge {
    Percent { label: String, percent: u8 },
}

impl Discount {
    pub open spec fn percent_of(self) -> u8 {
        match self {
            Discount::Percent { percent, .. } => percent,
        }
    }
}

impl ServiceCharge {
    pub open spec fn percent_of(self) -> u8 {
        match self {
            ServiceCharge::Percent { percent, .. } => percent,
        }
    }
}

#[derive(Debug)]
pub struct Payment {
    pub payment_id: PaymentID,
    pub tender: TenderType,
    /// Amount approved and held.
    pub authorised: Money,
    /// Amount settled; counts as paid.
    pub captured: Money,
    /// Amount refunded; reduces what was paid.
    pub refunded: Money,
    pub tip: Option<Money>,
    pub status: PaymentStatus,
    pub processor: Option<ProcessorRef>,
}

pub struct PaymentView {
    pub payment_id: PaymentID,
    pub tender: TenderType,
    pub authorised: MoneyView,
    pub captured: MoneyView,
    pub refunded: MoneyView,
    pub tip: Option<MoneyView>,
    pub status: PaymentStatus,
    pub processor: Option<ProcessorRef>,
}

pub open spec fn opt_money_view(m: Option<Money>) -> Option<MoneyView> {
    match m {
        Some(v) => Some(v@),
        None => None,
    }
}

impl View for Payment {
    type V = PaymentView;

    open spec fn view(&self) -> PaymentView {
        PaymentView {
            payment_id: self.payment_id,
            tender: self.tender,
            authorised: self.authorised@,
            captured: self.captured@,
            refunded: self.refunded@,
            tip: opt_money_view(self.tip),
            status: self.status,
            processor: self.processor,
        }
    }
}

impl Clone for Payment {
    fn clone(&self) -> (r: Self)
        ensures
            r == *self,
    {
        Payment {
            payment_id: self.payment_id,
            tender: self.tender.clone(),
            authorised: self.authorised,
            captured: self.captured,
            refunded: self.refunded,
            tip: self.tip,
            status: self.status,
            processor: clone_opt_processor(&self.processor),
        }
    }
}

#[derive(Clone, Copy, Debug, PartialEq, Eq, Structural)]
pub enum PaymentStatus {
    Authorized,
    Captured,
    Voided,
    Refunded,
}

#[derive(Debug)]
pub enum TenderType {
    Cash,
    Card,
    Other { label: String },
}

impl Clone for TenderType {
    fn clone(&self) -> (r: Self)
        ensures
            r == *self,
    {
        match self {
            TenderType::Cash => TenderType::Cash,
            TenderType::Card => TenderType::Card,
            TenderType::Other { label } => TenderType::Other { label: label.clone() },
        }
    }
}

/// The payment processor's reference for a payment.
#[derive(Debug)]
pub struct ProcessorRef {
    /// "stripe_terminal", "adyen", "worldpay", ...
    pub name: String,
    /// Payment intent or transaction id.
    pub reference: String,
    /// Arbitrary fields from the host app, as JSON text.
    pub meta: Option<String>,
}

impl Clone for ProcessorRef {
    fn clone(&self) -> (r: Self)
        ensures
            r == *self,
    {
        ProcessorRef {
            name: self.name.clone(),
            reference: self.reference.clone(),
            meta: clone_opt_string(&self.meta),
        }
    }
}

pub fn clone_opt_processor(p: &Option<ProcessorRef>) -> (r: Option<ProcessorRef>)
    ensures
        r == *p,
{
    match p {
        Some(v) => Some(v.clone()),
        None => None,
    }
}

pub open spec fn lines_view(lines: Seq<CheckLine>) -> Seq<CheckLineView> {
    lines.map_values(|l: CheckLine| l@)
}

pub open spec fn payments_view(ps: Seq<Payment>) -> Seq<PaymentView> {
    ps.map_values(|p: Payment| p@)
}

/// A check read as values: lines and payments by view.
pub struct CheckView {
    pub venue_id: VenueID,
    pub check_id: CheckID,
    pub order_id: OrderID,
    pub status: CheckStatus,
    pub lines: Seq<CheckLineView>,
    pub discount: Option<Discount>,
    pub service_charge: Option<ServiceCharge>,
    pub payments: Seq<PaymentView>,
    pub version: u64,
}

impl View for Check {
    type V = CheckView;

    open spec fn view(&self) -> CheckView {
        CheckView {
            venue_id: self.venue_id,
            check_id: self.check_id,
            order_id: self.order_id,
            status: self.status,
            lines: lines_view(self.lines@),
            discount: self.discount,
            service_charge: self.service_charge,
            payments: payments_view(self.payments@),
            version: self.version,
        }
    }
}

impl Clone for Check {
    fn clone(&self) -> (r: Self)
        ensures
            r@ == self@,
            r.lines@ == self.lines@,
            r.payments@ == self.payments@,
    {
        let lines = self.lines.clone();
        let payments = self.payments.clone();
        let discount = match &self.discount {
            Some(Discount::Percent { label, percent }) => Some(
                Discount::Percent { label: label.clone(), percent: *percent },
            ),
            None => None,
        };
        let service_charge = match &self.service_charge {
            Some(ServiceCharge::Percent { label, percent }) => Some(
                ServiceCharge::Percent { label: label.clone(), percent: *percent },
            ),
            None => None,
        };
        assert(lines@ =~= self.lines@);
        assert(payments@ =~= self.payments@);
        Check {
            venue_id: self.venue_id,
            check_id: self.check_id,
            order_id: self.order_id,
            status: self.status,
            lines,
            discount,
            service_charge,
            payments,
            version: self.version,
        }
    }
}

pub open spec fn new_check(venue_id: VenueID, check_id: CheckID, order_id: OrderID) -> CheckView {
    CheckView {
        venue_id,
        check_id,
        order_id,
        status: CheckStatus::Open,
        lines: Seq::empty(),
        discount: None,
        service_charge: None,
        payments: Seq::empty(),
        version: 0,
    }
}

impl Check {
    pub fn new(venue_id: VenueID, check_id: CheckID, order_id: OrderID) -> (r: Check)
        ensures
            r@ == new_check(venue_id, check_id, order_id),
            r.lines@.len() == 0,
            r.payments@.len() == 0,
    {
        let r = Check {
            venue_id,
            check_id,
            order_id,
            status: CheckStatus::Open,
            lines: Vec::new(),
            discount: None,
            service_charge: None,
            payments: Vec::new(),
            version: 0,
        };
        assert(r@.lines =~= Seq::empty());
        assert(r@.payments =~= Seq::empty());
        r
    }
}

pub enum CheckCommand {
    OpenCheck { venue_id: VenueID, check_id: CheckID, order_id: OrderID },
    AddLineFromOrderItem {
        venue_id: VenueID,
        check_id: CheckID,
        order_item_id: OrderItemID,
        qty: u32,
        unit_price: Money,
        name: String,
    },
    RemoveLine { venue_id: VenueID, check_id: CheckID, order_item_id: OrderItemID, reason: String },
    ApplyDiscountPercent {
        venue_id: VenueID,
        check_id: CheckID,
        label: String,
        percent: u8,
        reason: String,
    },
    ApplyServiceChargePercent {
        venue_id: VenueID,
        check_id: CheckID,
        label: String,
        percent: u8,
        reason: String,
    },
    CloseCheck { venue_id: VenueID, check_id: CheckID },
    RecordPayment {
        venue_id: VenueID,
        check_id: CheckID,
        payment_id: PaymentID,
        tender: TenderType,
        amount: Money,
        tip: Option<Money>,
        processor: Option<ProcessorRef>,
    },
    VoidPayment { venue_id: VenueID, check_id: CheckID, payment_id: PaymentID, reason: String },
    RecordRefund {
        venue_id: VenueID,
        check_id: CheckID,
        payment_id: PaymentID,
        amount: Money,
        reason: String,
    },
    SplitChecksCreate { venue_id: VenueID, from_check_id: CheckID, new_check_id: CheckID },
    SplitCheckMoveLineQty {
        venue_id: VenueID,
        from_check_id: CheckID,
        to_check_id: CheckID,
        order_item_id: OrderItemID,
        qty: u32,
    },
    AuthorisePayment {
        venue_id: VenueID,
        check_id: CheckID,
        payment_id: PaymentID,
        tender: TenderType,
        amount: Money,
        tip: Option<Money>,
        processor: Option<ProcessorRef>,
    },
    CapturePayment { venue_id: VenueID, check_id: CheckID, payment_id: PaymentID, amount: Money },
}

#[derive(Debug)]
pub enum CheckEvent {
    CheckOpened { venue_id: VenueID, check_id: CheckID, order_id: OrderID },
    LineAdded {
        venue_id: VenueID,
        check_id: CheckID,
        order_item_id: OrderItemID,
        qty: u32,
        unit_price: Money,
        name: String,
    },
    LineRemoved { venue_id: VenueID, check_id: CheckID, order_item_id: OrderItemID, reason: String },
    DiscountPercentApplied {
        venue_id: VenueID,
        check_id: CheckID,
        label: String,
        percent: u8,
        reason: String,
    },
    ServiceChargeApplied {
        venue_id: VenueID,
        check_id: CheckID,
        label: String,
        percent: u8,
        reason: String,
    },
    CheckClosed { venue_id: VenueID, check_id: CheckID },
    PaymentRecorded {
        venue_id: VenueID,
        check_id: CheckID,
        payment_id: PaymentID,
        tender: TenderType,
        amount: Money,
        tip: Option<Money>,
        processor: Option<ProcessorRef>,
    },
    PaymentVoided { venue_id: VenueID, check_id: CheckID, payment_id: PaymentID, reason: String },
    RefundRecorded {
        venue_id: VenueID,
        check_id: CheckID,
        payment_id: PaymentID,
        amount: Money,
        reason: String,
    },
    SplitCheckCreated { venue_id: VenueID, check_id: CheckID, from_check_id: CheckID },
    LineQtyDecreased {
        venue_id: VenueID,
        check_id: CheckID,
        order_item_id: OrderItemID,
        qty: u32,
        reason: String,
    },
    PaymentAuthorised {
        venue_id: VenueID,
        check_id: CheckID,
        payment_id: PaymentID,
        tender: TenderType,
        amount: Money,
        tip: Option<Money>,
        processor: Option<ProcessorRef>,
    },
    PaymentCaptured { venue_id: VenueID, check_id: CheckID, payment_id: PaymentID, amount: Money },
}

impl Clone for CheckEvent {
    fn clone(&self) -> (r: Self)
        ensures
            r == *self,
    {
        match self {
            CheckEvent::CheckOpened { venue_id, check_id, order_id } => CheckEvent::CheckOpened {
                venue_id: *venue_id,
                check_id: *check_id,
                order_id: *order_id,
            },
            CheckEvent::LineAdded { venue_id, check_id, order_item_id, qty, unit_price, name } =>
                CheckEvent::LineAdded {
                venue_id: *venue_id,
                check_id: *check_id,
                order_item_id: *order_item_id,
                qty: *qty,
                unit_price: *unit_price,
                name: name.clone(),
            },
            CheckEvent::LineRemoved { venue_id, check_id, order_item_id, reason } =>
                CheckEvent::LineRemoved {
                venue_id: *venue_id,
                check_id: *check_id,
                order_item_id: *order_item_id,
                reason: reason.clone(),
            },
            CheckEvent::DiscountPercentApplied { venue_id, check_id, label, percent, reason } =>
                CheckEvent::DiscountPercentApplied {
                venue_id: *venue_id,
                check_id: *check_id,
                label: label.clone(),
                percent: *percent,
                reason: reason.clone(),
            },
            CheckEvent::ServiceChargeApplied { venue_id, check_id, label, percent, reason } =>
                CheckEvent::ServiceChargeApplied {
                venue_id: *venue_id,
                check_id: *check_id,
                label: label.clone(),
                percent: *percent,
                reason: reason.clone(),
            },
            CheckEvent::CheckClosed { venue_id, check_id } => CheckEvent::CheckClosed {
                venue_id: *venue_id,
                check_id: *check_id,
            },
            CheckEvent::PaymentRecorded {
                venue_id,
                check_id,
                payment_id,
                tender,
                amount,
                tip,
                processor,
            } => CheckEvent::PaymentRecorded {
                venue_id: *venue_id,
                check_id: *check_id,
                payment_id: *payment_id,
                tender: tender.clone(),
                amount: *amount,
                tip: *tip,
                processor: clone_opt_processor(processor),
            },
            CheckEvent::PaymentVoided { venue_id, check_id, payment_id, reason } =>
                CheckEvent::PaymentVoided {
                venue_id: *venue_id,
                check_id: *check_id,
                payment_id: *payment_id,
                reason: reason.clone(),
            },
            CheckEvent::RefundRecorded { venue_id, check_id, payment_id, amount, reason } =>
                CheckEvent::RefundRecorded {
                venue_id: *venue_id,
                check_id: *check_id,
                payment_id: *payment_id,
                amount: *amount,
                reason: reason.clone(),
            },
            CheckEvent::SplitCheckCreated { venue_id, check_id, from_check_id } =>
                CheckEvent::SplitCheckCreated {
                venue_id: *venue_id,
                check_id: *check_id,
                from_check_id: *from_check_id,
            },
            CheckEvent::LineQtyDecreased { venue_id, check_id, order_item_id, qty, reason } =>
                CheckEvent::LineQtyDecreased {
                venue_id: *venue_id,
                check_id: *check_id,
                order_item_id: *order_item_id,
                qty: *qty,
                reason: reason.clone(),
            },
            CheckEvent::PaymentAuthorised {
                venue_id,
                check_id,
                payment_id,
                tender,
                amount,
                tip,
                processor,
            } => CheckEvent::PaymentAuthorised {
                venue_id: *venue_id,
                check_id: *check_id,
                payment_id: *payment_id,
                tender: tender.clone(),
                amount: *amount,
                tip: *tip,
                processor: clone_opt_processor(processor),
            },
            CheckEvent::PaymentCaptured { venue_id, check_id, payment_id, amount } =>
                CheckEvent::PaymentCaptured {
                venue_id: *venue_id,
                check_id: *check_id,
                payment_id: *payment_id,
                amount: *amount,
            },
        }
    }
}

// ---------------------------------------------------------------------------
// Looking payments up
// ---------------------------------------------------------------------------

/// `i` is the first position of a payment with this id.
pub open spec fn is_first_payment(ps: Seq<PaymentView>, id: PaymentID, i: int) -> bool {
    &&& 0 <= i < ps.len()
    &&& ps[i].payment_id == id
    &&& forall|j: int| 0 <= j < i ==> ps[j].payment_id != id
}

pub open spec fn has_payment(ps: Seq<PaymentView>, id: PaymentID) -> bool {
    exists|i: int| 0 <= i < ps.len() && ps[i].payment_id == id
}

/// The position of the first payment with this id (meaningful when there is one).
pub open spec fn payment_index(ps: Seq<PaymentView>, id: PaymentID) -> int {
    choose|i: int| is_first_payment(ps, id, i)
}

pub proof fn lemma_payment_index(ps: Seq<PaymentView>, id: PaymentID)
    requires
        has_payment(ps, id),
    ensures
        is_first_payment(ps, id, payment_index(ps, id)),
        forall|i: int| is_first_payment(ps, id, i) ==> i == payment_index(ps, id),
{
    let k = choose|k: int| 0 <= k < ps.len() && ps[k].payment_id == id;
    lemma_first_payment_exists(ps, id, k);
    let i = payment_index(ps, id);
    assert forall|j: int| is_first_payment(ps, id, j) implies j == i by {
        if j < i {
        } else if i < j {
        }
    }
}

proof fn lemma_first_payment_exists(ps: Seq<PaymentView>, id: PaymentID, k: int)
    requires
        0 <= k < ps.len(),
        ps[k].payment_id == id,
    ensures
        exists|i: int| is_first_payment(ps, id, i),
    decreases k,
{
    if forall|j: int| 0 <= j < k ==> ps[j].payment_id != id {
        assert(is_first_payment(ps, id, k));
    } else {
        let j = choose|j: int| 0 <= j < k && ps[j].payment_id != id == false;
        lemma_first_payment_exists(ps, id, j);
    }
}

/// The first payment with this id.
pub open spec fn first_payment(ps: Seq<PaymentView>, id: PaymentID) -> PaymentView {
    ps[payment_index(ps, id)]
}

/// The first payment with this id, as held by the check.
pub open spec fn held_payment(c: Check, id: PaymentID) -> Payment {
    c.payments@[payment_index(c@.payments, id)]
}

/// Position of the first payment with this id, if any.
pub fn find_payment(payments: &Vec<Payment>, payment_id: PaymentID) -> (r: Option<usize>)
    ensures
        r is Some <==> has_payment(payments_view(payments@), payment_id),
        r matches Some(i) ==> i as int == payment_index(payments_view(payments@), payment_id)
            && i < payments@.len() && is_first_payment(
            payments_view(payments@),
            payment_id,
            i as int,
        ),
{
    let ghost pv = payments_view(payments@);
    let mut i: usize = 0;
    while i < payments.len()
        invariant
            pv == payments_view(payments@),
            i <= payments.len(),
            forall|j: int| 0 <= j < i ==> pv[j].payment_id != payment_id,
        decreases payments.len() - i,
    {
        if payments[i].payment_id == payment_id {
            proof {
                assert(pv[i as int].payment_id == payment_id);
                assert(is_first_payment(pv, payment_id, i as int));
                lemma_payment_index(pv, payment_id);
            }
            return Some(i);
        }
        assert(pv[i as int].payment_id != payment_id);
        i += 1;
    }
    None
}

/// `i` is the first position of a line for this order item.
pub open spec fn is_first_line(ls: Seq<CheckLineView>, id: OrderItemID, i: int) -> bool {
    &&& 0 <= i < ls.len()
    &&& ls[i].order_item_id == id
    &&& forall|j: int| 0 <= j < i ==> ls[j].order_item_id != id
}

pub open spec fn has_line(ls: Seq<CheckLineView>, id: OrderItemID) -> bool {
    exists|i: int| 0 <= i < ls.len() && ls[i].order_item_id == id
}

/// The position of the first line for this order item (meaningful when there is one).
pub open spec fn line_index(ls: Seq<CheckLineView>, id: OrderItemID) -> int {
    choose|i: int| is_first_line(ls, id, i)
}

pub proof fn lemma_line_index(ls: Seq<CheckLineView>, id: OrderItemID)
    requires
        has_line(ls, id),
    ensures
        is_first_line(ls, id, line_index(ls, id)),
        forall|i: int| is_first_line(ls, id, i) ==> i == line_index(ls, id),
{
    let k = choose|k: int| 0 <= k < ls.len() && ls[k].order_item_id == id;
    lemma_first_line_exists(ls, id, k);
    let i = line_index(ls, id);
    assert forall|j: int| is_first_line(ls, id, j) implies j == i by {
        if j < i {
        } else if i < j {
        }
    }
}

proof fn lemma_first_line_exists(ls: Seq<CheckLineView>, id: OrderItemID, k: int)
    requires
        0 <= k < ls.len(),
        ls[k].order_item_id == id,
    ensures
        exists|i: int| is_first_line(ls, id, i),
    decreases k,
{
    if forall|j: int| 0 <= j < k ==> ls[j].order_item_id != id {
        assert(is_first_line(ls, id, k));
    } else {
        let j = choose|j: int| 0 <= j < k && ls[j].order_item_id != id == false;
        lemma_first_line_exists(ls, id, j);
    }
}

/// Position of the first line for this order item, if any.
pub fn find_line(lines: &Vec<CheckLine>, order_item_id: OrderItemID) -> (r: Option<usize>)
    ensures
        r is Some <==> has_line(lines_view(lines@), order_item_id),
        r matches Some(i) ==> i as int == line_index(lines_view(lines@), order_item_id) && i
            < lines@.len() && is_first_line(lines_view(lines@), order_item_id, i as int),
{
    let ghost lv = lines_view(lines@);
    let mut i: usize = 0;
    while i < lines.len()
        invariant
            lv == lines_view(lines@),
            i <= lines.len(),
            forall|j: int| 0 <= j < i ==> lv[j].order_item_id != order_item_id,
        decreases lines.len() - i,
    {
        if lines[i].order_item_id == order_item_id {
            proof {
                assert(lv[i as int].order_item_id == order_item_id);
                assert(is_first_line(lv, order_item_id, i as int));
                lemma_line_index(lv, order_item_id);
            }
            return Some(i);
        }
        assert(lv[i as int].order_item_id != order_item_id);
        i += 1;
    }
    None
}

/// The lines that are not for this order item, in their order.
pub open spec fn remove_lines(ls: Seq<CheckLineView>, id: OrderItemID) -> Seq<CheckLineView>
    decreases ls.len(),
{
    if ls.len() == 0 {
        ls
    } else {
        let rest = remove_lines(ls.drop_last(), id);
        if ls.last().order_item_id == id {
            rest
        } else {
            rest.push(ls.last())
        }
    }
}

/// Keeps the lines that are not for this order item.
pub fn retain_lines_without(lines: &Vec<CheckLine>, order_item_id: OrderItemID) -> (r: Vec<
    CheckLine,
>)
    ensures
        lines_view(r@) == remove_lines(lines_view(lines@), order_item_id),
{
    let ghost lv = lines_view(lines@);
    let mut out: Vec<CheckLine> = Vec::new();
    let mut i: usize = 0;
    assert(lv.take(0) =~= Seq::<CheckLineView>::empty());
    assert(lines_view(out@) =~= Seq::<CheckLineView>::empty());
    while i < lines.len()
        invariant
            lv == lines_view(lines@),
            i <= lines.len(),
            lines_view(out@) == remove_lines(lv.take(i as int), order_item_id),
        decreases lines.len() - i,
    {
        assert(lv.take(i + 1).drop_last() =~= lv.take(i as int));
        assert(lv.take(i + 1).last() == lv[i as int]);
        if lines[i].order_item_id != order_item_id {
            let ghost before = out@;
            out.push(lines[i].clone());
            assert(lines_view(out@) =~= lines_view(before).push(lv[i as int]));
        }
        i += 1;
    }
    assert(lv.take(lines.len() as int) =~= lv);
    out
}

// ---------------------------------------------------------------------------
// Rules
// ---------------------------------------------------------------------------

/// Refuses a check that is not open.
pub fn ensure_check_open(c: &Check) -> (r: Result<(), PosError>)
    ensures
        r is Ok <==> c.status == CheckStatus::Open,
        r matches Err(e) ==> e@ == PosErrorView::Validation("check is not open"@),
{
    if c.status != CheckStatus::Open {
        return Err(PosError::validation("check is not open"));
    }
    Ok(())
}

/// Refuses a percentage above 100.
pub fn ensure_percent_valid(p: u8) -> (r: Result<(), PosError>)
    ensures
        r is Ok <==> p <= 100,
        r matches Err(e) ==> e@ == PosErrorView::Validation(
            "percent must be between 0 and 100"@,
        ),
{
    if p > 100 {
        return Err(PosError::validation("percent must be between 0 and 100"));
    }
    Ok(())
}

/// Refuses a quantity of zero.
pub fn ensure_qty_positive(qty: u32) -> (r: Result<(), PosError>)
    ensures
        r is Ok <==> qty >= 1,
        r matches Err(e) ==> e@ == PosErrorView::Validation("qty must be >= 1"@),
{
    if qty == 0 {
        return Err(PosError::validation("qty must be >= 1"));
    }
    Ok(())
}

/// Refuses a payment id that the check does not hold.
pub fn ensure_payment_exists(check: &Check, payment_id: PaymentID) -> (r: Result<(), PosError>)
    ensures
        r is Ok <==> has_payment(check@.payments, payment_id),
        r matches Err(e) ==> e@ == PosErrorView::NotFound("payment not found"@),
{
    match find_payment(&check.payments, payment_id) {
        Some(_) => Ok(()),
        None => Err(PosError::not_found("payment not found")),
    }
}

pub open spec fn is_void_or_refunded(s: PaymentStatus) -> bool {
    s == PaymentStatus::Voided || s == PaymentStatus::Refunded
}

/// Refuses a missing payment, or one that was voided or refunded.
pub fn ensure_payment_not_void_or_refunded(check: &Check, payment_id: PaymentID) -> (r: Result<
    (),
    PosError,
>)
    ensures
        !has_payment(check@.payments, payment_id) ==> err_is(r, PosErrorView::NotFound("payment not found"@)),
        has_payment(check@.payments, payment_id) ==> {
            let p = first_payment(check@.payments, payment_id);
            &&& r is Ok <==> !is_void_or_refunded(p.status)
            &&& r matches Err(e) ==> e@ == PosErrorView::Validation("payment is not active"@)
        },
{
    let p = get_payment(check, payment_id)?;
    if p.status == PaymentStatus::Voided || p.status == PaymentStatus::Refunded {
        return Err(PosError::validation("payment is not active"));
    }
    Ok(())
}

/// Refuses an amount in another currency than the check's first line.
pub fn ensure_currency_matches(check: &Check, amount: &Money) -> (r: Result<(), PosError>)
    ensures
        r is Ok <==> (check.lines@.len() == 0 || check.lines@[0].unit_price.currency
            == amount.currency),
        r matches Err(e) ==> e@ == PosErrorView::Validation("currency mismatch"@),
{
    if check.lines.len() > 0 {
        if check.lines[0].unit_price.currency != amount.currency {
            return Err(PosError::validation("currency mismatch"));
        }
    }
    Ok(())
}

/// The first payment with this id.
pub fn get_payment(check: &Check, payment_id: PaymentID) -> (r: Result<&Payment, PosError>)
    ensures
        r is Ok <==> has_payment(check@.payments, payment_id),
        r matches Ok(p) ==> *p == held_payment(*check, payment_id) && p@ == first_payment(
            check@.payments,
            payment_id,
        ),
        r matches Err(e) ==> e@ == PosErrorView::NotFound("payment not found"@),
{
    match find_payment(&check.payments, payment_id) {
        Some(i) => Ok(&check.payments[i]),
        None => Err(PosError::not_found("payment not found")),
    }
}

/// `authorised - captured` of a payment is computed exactly.
pub open spec fn capture_fits(p: Payment) -> bool {
    sum_fits(p.authorised.amount, p.captured.amount, p.authorised.amount@ - p.captured.amount@)
}

/// `captured - refunded` of a payment is computed exactly.
pub open spec fn refund_fits(p: Payment) -> bool {
    sum_fits(p.captured.amount, p.refunded.amount, p.captured.amount@ - p.refunded.amount@)
}

/// Accepts a capture of `amount` when the payment exists, is neither voided
/// nor refunded, and `amount` does not exceed what is authorised and not yet
/// captured.
pub fn ensure_payment_can_capture(check: &Check, payment_id: PaymentID, amount: &Money) -> (r:
    Result<(), PosError>)
    requires
        has_payment(check@.payments, payment_id) ==> {
            let p = first_payment(check@.payments, payment_id);
            !is_void_or_refunded(p.status) ==> capture_fits(held_payment(*check, payment_id))
        },
    ensures
        !has_payment(check@.payments, payment_id) ==> err_is(r, PosErrorView::NotFound("payment not found"@)),
        has_payment(check@.payments, payment_id) ==> {
            let p = first_payment(check@.payments, payment_id);
            &&& r is Ok <==> (!is_void_or_refunded(p.status) && amount.amount@
                <= p.authorised.amount - p.captured.amount)
            &&& is_void_or_refunded(p.status) ==> err_is(r, PosErrorView::Validation("payment is not capturable"@))
            &&& !is_void_or_refunded(p.status) ==> (r matches Err(e) ==> e@
                == PosErrorView::Validation("capture amount exceeds authorised remaining"@))
        },
{
    let p = get_payment(check, payment_id)?;
    if p.status == PaymentStatus::Voided || p.status == PaymentStatus::Refunded {
        return Err(PosError::validation("payment is not capturable"));
    }
    let remaining = dec_sub(p.authorised.amount, p.captured.amount);
    if dec_gt(amount.amount, remaining) {
        return Err(PosError::validation("capture amount exceeds authorised remaining"));
    }
    Ok(())
}

/// Accepts a refund of `amount` when the payment exists, is not voided, and
/// `amount` does not exceed what is captured and not yet refunded.
pub fn ensure_payment_can_refund(check: &Check, payment_id: PaymentID, amount: &Money) -> (r:
    Result<(), PosError>)
    requires
        has_payment(check@.payments, payment_id) ==> {
            let p = first_payment(check@.payments, payment_id);
            p.status != PaymentStatus::Voided ==> refund_fits(held_payment(*check, payment_id))
        },
    ensures
        !has_payment(check@.payments, payment_id) ==> err_is(r, PosErrorView::NotFound("payment not found"@)),
        has_payment(check@.payments, payment_id) ==> {
            let p = first_payment(check@.payments, payment_id);
            &&& r is Ok <==> (p.status != PaymentStatus::Voided && amount.amount@
                <= p.captured.amount - p.refunded.amount)
            &&& p.status == PaymentStatus::Voided ==> err_is(r, PosErrorView::Validation("cannot refund a voided payment"@))
            &&& p.status != PaymentStatus::Voided ==> (r matches Err(e) ==> e@
                == PosErrorView::Validation("refund amount exceeds refundable amount"@))
        },
{
    let p = get_payment(check, payment_id)?;
    if p.status == PaymentStatus::Voided {
        return Err(PosError::validation("cannot refund a voided payment"));
    }
    let refundable = dec_sub(p.captured.amount, p.refunded.amount);
    if dec_gt(amount.amount, refundable) {
        return Err(PosError::validation("refund amount exceeds refundable amount"));
    }
    Ok(())
}

/// Accepts voiding a payment that exists and has nothing captured.
pub fn ensure_payment_can_void(check: &Check, payment_id: PaymentID) -> (r: Result<(), PosError>)
    ensures
        !has_payment(check@.payments, payment_id) ==> err_is(r, PosErrorView::NotFound("payment not found"@)),
        has_payment(check@.payments, payment_id) ==> {
            let p = first_payment(check@.payments, payment_id);
            &&& r is Ok <==> p.captured.amount <= 0
            &&& r matches Err(e) ==> e@ == PosErrorView::Validation(
                "cannot void a captured payment; refund it instead"@,
            )
        },
{
    let p = get_payment(check, payment_id)?;
    if dec_gt(p.captured.amount, Amount::zero()) {
        return Err(PosError::validation("cannot void a captured payment; refund it instead"));
    }
    Ok(())
}

} // verus!
