//! What a check adds up to: subtotal, discount, service charge, total, what
//! was paid, tips and the balance due.

use vstd::prelude::*;

use crate::amount::{
    dec_add, dec_div_u32, dec_mul_u32, dec_sub, in_range, lemma_in_range_mono, max_scale,
    product_scale_of, quotient_scale, sum_scale_of, Amount,
};
use crate::checks::{
    Check, CheckLine, CheckLineView, CheckView, Discount, MoneyView, Payment, PaymentStatus,
    PaymentView, ServiceCharge, lines_view, payments_view,
};
use crate::ids::{Currency, Money};

verus! {

#[derive(Debug)]
pub struct CheckTotals {
    pub subtotal: Money,
    pub discount: Money,
    pub service_charge: Money,
    pub total: Money,
    pub paid: Money,
    pub tip: Money,
    pub balance_due: Money,
}

pub struct CheckTotalsView {
    pub subtotal: MoneyView,
    pub discount: MoneyView,
    pub service_charge: MoneyView,
    pub total: MoneyView,
    pub paid: MoneyView,
    pub tip: MoneyView,
    pub balance_due: MoneyView,
}

impl View for CheckTotals {
    type V = CheckTotalsView;

    open spec fn view(&self) -> CheckTotalsView {
        CheckTotalsView {
            subtotal: self.subtotal@,
            discount: self.discount@,
            service_charge: self.service_charge@,
            total: self.total@,
            paid: self.paid@,
            tip: self.tip@,
            balance_due: self.balance_due@,
        }
    }
}

// ---------------------------------------------------------------------------
// The totals as values
// ---------------------------------------------------------------------------

pub open spec fn line_amount(l: CheckLineView) -> int {
    l.unit_price.amount * l.qty
}

/// Sum of unit price times quantity over the lines.
pub open spec fn lines_subtotal(lines: Seq<CheckLineView>) -> int
    decreases lines.len(),
{
    if lines.len() == 0 {
        0
    } else {
        lines_subtotal(lines.drop_last()) + line_amount(lines.last())
    }
}

pub open spec fn discount_percent(c: CheckView) -> int {
    match c.discount {
        Some(d) => d.percent_of() as int,
        None => 0,
    }
}

pub open spec fn service_percent(c: CheckView) -> int {
    match c.service_charge {
        Some(s) => s.percent_of() as int,
        None => 0,
    }
}

pub open spec fn subtotal_value(c: CheckView) -> int {
    lines_subtotal(c.lines)
}

pub open spec fn discount_value(c: CheckView) -> int {
    subtotal_value(c) * discount_percent(c) / 100
}

pub open spec fn after_discount_value(c: CheckView) -> int {
    subtotal_value(c) - discount_value(c)
}

pub open spec fn service_value(c: CheckView) -> int {
    after_discount_value(c) * service_percent(c) / 100
}

pub open spec fn total_value(c: CheckView) -> int {
    after_discount_value(c) + service_value(c)
}

/// Captured and refunded payments count towards what was paid.
pub open spec fn counts_as_paid(p: PaymentView) -> bool {
    p.status == PaymentStatus::Captured || p.status == PaymentStatus::Refunded
}

pub open spec fn payment_net(p: PaymentView) -> int {
    p.captured.amount - p.refunded.amount
}

pub open spec fn payment_tip(p: PaymentView) -> int {
    match p.tip {
        Some(t) => t.amount,
        None => 0,
    }
}

/// Sum of captured minus refunded over the payments that count as paid.
pub open spec fn paid_sum(ps: Seq<PaymentView>) -> int
    decreases ps.len(),
{
    if ps.len() == 0 {
        0
    } else {
        paid_sum(ps.drop_last()) + if counts_as_paid(ps.last()) {
            payment_net(ps.last())
        } else {
            0
        }
    }
}

/// Sum of the tips of the payments that count as paid.
pub open spec fn tip_sum(ps: Seq<PaymentView>) -> int
    decreases ps.len(),
{
    if ps.len() == 0 {
        0
    } else {
        tip_sum(ps.drop_last()) + if counts_as_paid(ps.last()) {
            payment_tip(ps.last())
        } else {
            0
        }
    }
}

pub open spec fn paid_value(c: CheckView) -> int {
    paid_sum(c.payments)
}

pub open spec fn tip_value(c: CheckView) -> int {
    tip_sum(c.payments)
}

pub open spec fn balance_due_value(c: CheckView) -> int {
    total_value(c) - paid_value(c)
}

/// The currency of the first line; GBP for a check with no lines.
pub open spec fn totals_currency(c: CheckView) -> Currency {
    if c.lines.len() > 0 {
        c.lines[0].unit_price.currency
    } else {
        Currency::GBP
    }
}

pub open spec fn money_view(amount: int, currency: Currency) -> MoneyView {
    MoneyView { amount, currency }
}

pub open spec fn totals_of(c: CheckView) -> CheckTotalsView {
    let cur = totals_currency(c);
    CheckTotalsView {
        subtotal: money_view(subtotal_value(c), cur),
        discount: money_view(discount_value(c), cur),
        service_charge: money_view(service_value(c), cur),
        total: money_view(total_value(c), cur),
        paid: money_view(paid_value(c), cur),
        tip: money_view(tip_value(c), cur),
        balance_due: money_view(balance_due_value(c), cur),
    }
}

// ---------------------------------------------------------------------------
// The fractional digits of the totals
// ---------------------------------------------------------------------------

/// Fractional digits of the subtotal: the line products (price times
/// quantity) added one by one, starting from zero with no digits.
pub open spec fn subtotal_scale(lines: Seq<CheckLine>) -> nat
    decreases lines.len(),
{
    if lines.len() == 0 {
        0
    } else {
        let prev = lines.drop_last();
        let l = lines.last();
        let price = l.unit_price.amount;
        sum_scale_of(
            lines_subtotal(lines_view(prev)),
            subtotal_scale(prev),
            price@ * l.qty,
            product_scale_of(price@, price.scale_of(), l.qty as int),
        )
    }
}

/// Fractional digits of `amount * percent / 100`.
pub open spec fn percent_scale(amount: int, scale: nat, percent: u8) -> nat {
    quotient_scale(amount * percent, product_scale_of(amount, scale, percent as int), 100)
}

pub open spec fn discount_scale(c: Check) -> nat {
    match c.discount {
        Some(d) => percent_scale(subtotal_value(c@), subtotal_scale(c.lines@), d.percent_of()),
        None => 0,
    }
}

pub open spec fn after_discount_scale(c: Check) -> nat {
    sum_scale_of(
        subtotal_value(c@),
        subtotal_scale(c.lines@),
        discount_value(c@),
        discount_scale(c),
    )
}

pub open spec fn service_scale(c: Check) -> nat {
    match c.service_charge {
        Some(sc) => percent_scale(after_discount_value(c@), after_discount_scale(c), sc.percent_of()),
        None => 0,
    }
}

pub open spec fn total_scale(c: Check) -> nat {
    sum_scale_of(after_discount_value(c@), after_discount_scale(c), service_value(c@), service_scale(c))
}

/// Fractional digits of what was paid: captured less refunded, per payment
/// that counts, added one by one from zero.
pub open spec fn paid_scale(ps: Seq<Payment>) -> nat
    decreases ps.len(),
{
    if ps.len() == 0 {
        0
    } else {
        let prev = ps.drop_last();
        let p = ps.last();
        if counts_as_paid(p@) {
            sum_scale_of(
                paid_sum(payments_view(prev)),
                paid_scale(prev),
                payment_net(p@),
                sum_scale_of(
                    p.captured.amount@,
                    p.captured.amount.scale_of(),
                    p.refunded.amount@,
                    p.refunded.amount.scale_of(),
                ),
            )
        } else {
            paid_scale(prev)
        }
    }
}

/// Fractional digits of the tips of the payments that count, added one by one
/// from zero.
pub open spec fn tip_scale(ps: Seq<Payment>) -> nat
    decreases ps.len(),
{
    if ps.len() == 0 {
        0
    } else {
        let prev = ps.drop_last();
        let p = ps.last();
        if counts_as_paid(p@) && p.tip is Some {
            sum_scale_of(
                tip_sum(payments_view(prev)),
                tip_scale(prev),
                p.tip->Some_0.amount@,
                p.tip->Some_0.amount.scale_of(),
            )
        } else {
            tip_scale(prev)
        }
    }
}

pub open spec fn balance_due_scale(c: Check) -> nat {
    sum_scale_of(total_value(c@), total_scale(c), paid_value(c@), paid_scale(c.payments@))
}

// ---------------------------------------------------------------------------
// When the totals are computed exactly
// ---------------------------------------------------------------------------

/// Most fractional digits among the line prices.
pub open spec fn lines_scale(lines: Seq<CheckLine>) -> nat
    decreases lines.len(),
{
    if lines.len() == 0 {
        0
    } else {
        max_scale(lines_scale(lines.drop_last()), lines.last().unit_price.amount.scale_of())
    }
}

pub open spec fn payment_scale(p: Payment) -> nat {
    let t = match p.tip {
        Some(m) => m.amount.scale_of(),
        None => 0,
    };
    max_scale(max_scale(p.captured.amount.scale_of(), p.refunded.amount.scale_of()), t)
}

/// Most fractional digits among the captured, refunded and tip amounts.
pub open spec fn payments_scale(ps: Seq<Payment>) -> nat
    decreases ps.len(),
{
    if ps.len() == 0 {
        0
    } else {
        max_scale(payments_scale(ps.drop_last()), payment_scale(ps.last()))
    }
}

/// Fractional digits of the discounted subtotal: those of the line prices,
/// and two more when a discount applies.
pub open spec fn discounted_scale(c: Check) -> int {
    lines_scale(c.lines@) + if c.discount is Some {
        2int
    } else {
        0int
    }
}

/// Fractional digits of the total: those of the discounted subtotal, and two
/// more when a service charge applies.
pub open spec fn charged_scale(c: Check) -> int {
    discounted_scale(c) + if c.service_charge is Some {
        2int
    } else {
        0int
    }
}

/// Every intermediate result of `totals` fits in a decimal with the digits
/// it needs, so that `rust_decimal` computes each one exactly.
///
/// With line prices of at most `s` fractional digits the subtotal needs `s`;
/// a discount takes two digits more, and a service charge two digits more
/// than the discounted subtotal. Payments need the digits of their own
/// amounts.
pub open spec fn totals_fit(c: Check) -> bool {
    let v = c@;
    let s = lines_scale(c.lines@) as int;
    let d = discounted_scale(c);
    let t = charged_scale(c);
    let p = payments_scale(c.payments@) as int;
    let b = if t >= p {
        t
    } else {
        p
    };
    let sub = subtotal_value(v);
    let after = after_discount_value(v);
    &&& t <= 28
    &&& p <= 28
    &&& forall|i: int| 0 <= i < v.lines.len() ==> in_range(#[trigger] line_amount(v.lines[i]), s)
    &&& forall|k: int|
        0 <= k <= v.lines.len() ==> in_range(#[trigger] lines_subtotal(v.lines.take(k)), s)
    &&& in_range(sub * discount_percent(v), s)
    &&& in_range(discount_value(v), d)
    &&& in_range(sub, d)
    &&& in_range(after, d)
    &&& in_range(after * service_percent(v), d)
    &&& in_range(service_value(v), t)
    &&& in_range(after, t)
    &&& in_range(total_value(v), t)
    &&& forall|i: int|
        0 <= i < v.payments.len() && counts_as_paid(#[trigger] v.payments[i]) ==> {
            &&& in_range(v.payments[i].captured.amount, p)
            &&& in_range(v.payments[i].refunded.amount, p)
            &&& in_range(payment_net(v.payments[i]), p)
            &&& in_range(payment_tip(v.payments[i]), p)
        }
    &&& forall|k: int|
        0 <= k <= v.payments.len() ==> in_range(#[trigger] paid_sum(v.payments.take(k)), p)
    &&& forall|k: int|
        0 <= k <= v.payments.len() ==> in_range(#[trigger] tip_sum(v.payments.take(k)), p)
    &&& in_range(total_value(v), b)
    &&& in_range(paid_value(v), b)
    &&& in_range(balance_due_value(v), b)
}

proof fn lemma_lines_scale(lines: Seq<CheckLine>, i: int)
    requires
        0 <= i < lines.len(),
    ensures
        lines[i].unit_price.amount.scale_of() <= lines_scale(lines),
    decreases lines.len(),
{
    if i < lines.len() - 1 {
        lemma_lines_scale(lines.drop_last(), i);
    }
}

proof fn lemma_payments_scale(ps: Seq<Payment>, i: int)
    requires
        0 <= i < ps.len(),
    ensures
        payment_scale(ps[i]) <= payments_scale(ps),
    decreases ps.len(),
{
    if i < ps.len() - 1 {
        lemma_payments_scale(ps.drop_last(), i);
    }
}

proof fn lemma_subtotal_step(lines: Seq<CheckLineView>, i: int)
    requires
        0 <= i < lines.len(),
    ensures
        lines_subtotal(lines.take(i + 1)) == lines_subtotal(lines.take(i)) + line_amount(lines[i]),
{
    assert(lines.take(i + 1).drop_last() =~= lines.take(i));
}

proof fn lemma_paid_step(ps: Seq<PaymentView>, i: int)
    requires
        0 <= i < ps.len(),
    ensures
        paid_sum(ps.take(i + 1)) == paid_sum(ps.take(i)) + if counts_as_paid(ps[i]) {
            payment_net(ps[i])
        } else {
            0
        },
        tip_sum(ps.take(i + 1)) == tip_sum(ps.take(i)) + if counts_as_paid(ps[i]) {
            payment_tip(ps[i])
        } else {
            0
        },
{
    assert(ps.take(i + 1).drop_last() =~= ps.take(i));
}

/// Subtotal, discount, service charge, total, paid, tips and balance due of a
/// check, all in the currency of its first line (GBP when it has none).
pub fn totals(check: &Check) -> (r: CheckTotals)
    requires
        totals_fit(*check),
    ensures
        r@ == totals_of(check@),
        r.subtotal.amount.scale_of() == subtotal_scale(check.lines@),
        r.discount.amount.scale_of() == discount_scale(*check),
        r.service_charge.amount.scale_of() == service_scale(*check),
        r.total.amount.scale_of() == total_scale(*check),
        r.paid.amount.scale_of() == paid_scale(check.payments@),
        r.tip.amount.scale_of() == tip_scale(check.payments@),
        r.balance_due.amount.scale_of() == balance_due_scale(*check),
{
    let ghost v = check@;
    let ghost s = lines_scale(check.lines@) as int;
    let ghost d = discounted_scale(*check);
    let ghost t = charged_scale(*check);
    let ghost p = payments_scale(check.payments@) as int;

    let currency = if check.lines.len() > 0 {
        check.lines[0].unit_price.currency
    } else {
        Currency::GBP
    };

    let mut subtotal = Amount::zero();
    let mut i: usize = 0;
    assert(v.lines.take(0) =~= Seq::<CheckLineView>::empty());
    while i < check.lines.len()
        invariant
            v == check@,
            s == lines_scale(check.lines@) as int,
            totals_fit(*check),
            i <= check.lines.len(),
            subtotal@ == lines_subtotal(v.lines.take(i as int)),
            subtotal.scale_of() <= s,
            subtotal.scale_of() == subtotal_scale(check.lines@.take(i as int)),
        decreases check.lines.len() - i,
    {
        let line = &check.lines[i];
        proof {
            lemma_lines_scale(check.lines@, i as int);
            assert(v.lines[i as int] == check.lines@[i as int]@);
            lemma_in_range_mono(
                line_amount(v.lines[i as int]),
                line.unit_price.amount.scale_of() as int,
                s,
            );
        }
        let product = dec_mul_u32(line.unit_price.amount, line.qty);
        proof {
            lemma_subtotal_step(v.lines, i as int);
            let m = max_scale(subtotal.scale_of(), product.scale_of()) as int;
            lemma_in_range_mono(subtotal@, m, s);
            lemma_in_range_mono(product@, m, s);
            lemma_in_range_mono(subtotal@ + product@, m, s);
        }
        proof {
            let raw = check.lines@.take(i + 1);
            assert(raw.drop_last() =~= check.lines@.take(i as int));
            assert(lines_view(check.lines@.take(i as int)) =~= v.lines.take(i as int));
        }
        subtotal = dec_add(subtotal, product);
        i += 1;
    }
    assert(v.lines.take(v.lines.len() as int) =~= v.lines);
    assert(check.lines@.take(check.lines@.len() as int) =~= check.lines@);

    let discount = match &check.discount {
        Some(Discount::Percent { percent, .. }) => {
            proof {
                lemma_in_range_mono(subtotal@ * (*percent as int), subtotal.scale_of() as int, s);
            }
            let scaled = dec_mul_u32(subtotal, *percent as u32);
            proof {
                lemma_in_range_mono(scaled@ / 100, (scaled.scale_of() + 2) as int, d);
            }
            dec_div_u32(scaled, 100)
        },
        None => Amount::zero(),
    };
    proof {
        let m = max_scale(subtotal.scale_of(), discount.scale_of()) as int;
        lemma_in_range_mono(subtotal@, m, d);
        lemma_in_range_mono(discount@, m, d);
        lemma_in_range_mono(subtotal@ - discount@, m, d);
    }
    let after_discount = dec_sub(subtotal, discount);

    let service = match &check.service_charge {
        Some(ServiceCharge::Percent { percent, .. }) => {
            proof {
                lemma_in_range_mono(
                    after_discount@ * (*percent as int),
                    after_discount.scale_of() as int,
                    d,
                );
            }
            let scaled = dec_mul_u32(after_discount, *percent as u32);
            proof {
                lemma_in_range_mono(scaled@ / 100, (scaled.scale_of() + 2) as int, t);
            }
            dec_div_u32(scaled, 100)
        },
        None => Amount::zero(),
    };
    proof {
        let m = max_scale(after_discount.scale_of(), service.scale_of()) as int;
        lemma_in_range_mono(after_discount@, m, t);
        lemma_in_range_mono(service@, m, t);
        lemma_in_range_mono(after_discount@ + service@, m, t);
    }
    let total = dec_add(after_discount, service);

    let mut paid = Amount::zero();
    let mut tip = Amount::zero();
    let mut j: usize = 0;
    assert(v.payments.take(0) =~= Seq::<PaymentView>::empty());
    while j < check.payments.len()
        invariant
            v == check@,
            p == payments_scale(check.payments@) as int,
            totals_fit(*check),
            j <= check.payments.len(),
            paid@ == paid_sum(v.payments.take(j as int)),
            tip@ == tip_sum(v.payments.take(j as int)),
            paid.scale_of() <= p,
            tip.scale_of() <= p,
            paid.scale_of() == paid_scale(check.payments@.take(j as int)),
            tip.scale_of() == tip_scale(check.payments@.take(j as int)),
        decreases check.payments.len() - j,
    {
        let pay = &check.payments[j];
        proof {
            lemma_paid_step(v.payments, j as int);
            lemma_payments_scale(check.payments@, j as int);
            assert(v.payments[j as int] == check.payments@[j as int]@);
            let raw = check.payments@.take(j + 1);
            assert(raw.drop_last() =~= check.payments@.take(j as int));
            assert(payments_view(check.payments@.take(j as int)) =~= v.payments.take(j as int));
        }
        if pay.status == PaymentStatus::Captured || pay.status == PaymentStatus::Refunded {
            proof {
                assert(counts_as_paid(v.payments[j as int]));
                let m = max_scale(pay.captured.amount.scale_of(), pay.refunded.amount.scale_of())
                    as int;
                lemma_in_range_mono(pay.captured.amount@, m, p);
                lemma_in_range_mono(pay.refunded.amount@, m, p);
                lemma_in_range_mono(pay.captured.amount@ - pay.refunded.amount@, m, p);
            }
            let net = dec_sub(pay.captured.amount, pay.refunded.amount);
            proof {
                let m = max_scale(paid.scale_of(), net.scale_of()) as int;
                lemma_in_range_mono(paid@, m, p);
                lemma_in_range_mono(net@, m, p);
                lemma_in_range_mono(paid@ + net@, m, p);
            }
            paid = dec_add(paid, net);
            match pay.tip {
                Some(t) => {
                    proof {
                        let m = max_scale(tip.scale_of(), t.amount.scale_of()) as int;
                        lemma_in_range_mono(tip@, m, p);
                        lemma_in_range_mono(t.amount@, m, p);
                        lemma_in_range_mono(tip@ + t.amount@, m, p);
                    }
                    tip = dec_add(tip, t.amount);
                },
                None => {},
            }
        }
        j += 1;
    }
    assert(v.payments.take(v.payments.len() as int) =~= v.payments);
    assert(check.payments@.take(check.payments@.len() as int) =~= check.payments@);

    proof {
        let b = if t >= p {
            t
        } else {
            p
        };
        let m = max_scale(total.scale_of(), paid.scale_of()) as int;
        lemma_in_range_mono(total@, m, b);
        lemma_in_range_mono(paid@, m, b);
        lemma_in_range_mono(total@ - paid@, m, b);
    }
    let balance_due = dec_sub(total, paid);

    CheckTotals {
        subtotal: Money { amount: subtotal, currency },
        discount: Money { amount: discount, currency },
        service_charge: Money { amount: service, currency },
        total: Money { amount: total, currency },
        paid: Money { amount: paid, currency },
        tip: Money { amount: tip, currency },
        balance_due: Money { amount: balance_due, currency },
    }
}

} // verus!
