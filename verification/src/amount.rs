//! Exact decimal amounts, held as a mantissa and a scale, with the
//! arithmetic delegated to `rust_decimal`.
//!
//! The value of an amount is `mantissa / 10^scale`. In contracts it is written
//! `a@`: the value counted in units of `10^-28`, the finest step a decimal
//! can represent, so that every amount has an exact integer view.

use vstd::prelude::*;

use rust_decimal::Decimal;

verus! {

/// Largest mantissa magnitude a decimal can hold (2^96 - 1).
pub const MAX_MANTISSA: i128 = 79228162514264337593543950335i128;

/// Largest number of fractional digits a decimal can hold.
pub const MAX_SCALE: u32 = 28u32;

pub open spec fn pow10(n: nat) -> int
    decreases n,
{
    if n == 0 {
        1
    } else {
        10 * pow10((n - 1) as nat)
    }
}

/// Largest magnitude, in units of `10^-28`, of a value written with
/// `scale` fractional digits and a mantissa that fits in 96 bits.
pub open spec fn bound_at(scale: int) -> int {
    MAX_MANTISSA * pow10((28 - scale) as nat)
}

/// `x` (in units of `10^-28`) can be held with `scale` fractional digits
/// without exceeding the 96-bit mantissa.
pub open spec fn in_range(x: int, scale: int) -> bool {
    -bound_at(scale) <= x <= bound_at(scale)
}

pub open spec fn max_scale(a: nat, b: nat) -> nat {
    if a >= b {
        a
    } else {
        b
    }
}

pub proof fn lemma_pow10_mono(a: nat, b: nat)
    requires
        a <= b,
    ensures
        1 <= pow10(a) <= pow10(b),
    decreases b,
{
    if b > a {
        lemma_pow10_mono(a, (b - 1) as nat);
    } else if a > 0 {
        lemma_pow10_mono((a - 1) as nat, (a - 1) as nat);
    }
}

/// A value that fits with more fractional digits also fits with fewer.
pub proof fn lemma_in_range_mono(x: int, s1: int, s2: int)
    requires
        0 <= s1 <= s2 <= 28,
        in_range(x, s2),
    ensures
        in_range(x, s1),
{
    lemma_pow10_mono((28 - s2) as nat, (28 - s1) as nat);
    assert(bound_at(s2) <= bound_at(s1)) by (nonlinear_arith)
        requires
            bound_at(s2) == MAX_MANTISSA * pow10((28 - s2) as nat),
            bound_at(s1) == MAX_MANTISSA * pow10((28 - s1) as nat),
            pow10((28 - s2) as nat) <= pow10((28 - s1) as nat),
    ;
}

/// An exact decimal number: `mantissa / 10^scale`.
#[derive(Clone, Copy, Debug)]
pub struct Amount {
    mantissa: i128,
    scale: u32,
}

impl Amount {
    #[verifier::type_invariant]
    pub closed spec fn wf(self) -> bool {
        &&& self.scale <= MAX_SCALE
        &&& -MAX_MANTISSA <= self.mantissa <= MAX_MANTISSA
    }

    pub closed spec fn mantissa_of(self) -> int {
        self.mantissa as int
    }

    pub closed spec fn scale_of(self) -> nat {
        self.scale as nat
    }

    /// The value in units of `10^-28`.
    pub open spec fn value(self) -> int {
        self.mantissa_of() * pow10((28 - self.scale_of()) as nat)
    }

    /// The `rust_decimal` invariant: at most 28 fractional digits and a
    /// mantissa of at most 96 bits.
    pub proof fn lemma_bounds(self)
        requires
            self.wf(),
        ensures
            self.scale_of() <= 28,
            -MAX_MANTISSA <= self.mantissa_of() <= MAX_MANTISSA,
    {
    }

    /// `num / 10^scale`, as `Decimal::new` builds it.
    pub fn new(num: i64, scale: u32) -> (r: Amount)
        requires
            scale <= MAX_SCALE,
        ensures
            r.mantissa_of() == num as int,
            r.scale_of() == scale as nat,
    {
        Amount { mantissa: num as i128, scale }
    }

    /// Zero with no fractional digits, as `Decimal::ZERO`.
    pub fn zero() -> (r: Amount)
        ensures
            r.mantissa_of() == 0,
            r.scale_of() == 0,
            r@ == 0,
    {
        Amount { mantissa: 0, scale: 0 }
    }

    /// A whole number, as `Decimal::from(u32)`.
    pub fn from_u32(v: u32) -> (r: Amount)
        ensures
            r.mantissa_of() == v as int,
            r.scale_of() == 0,
    {
        Amount { mantissa: v as i128, scale: 0 }
    }

    /// `mantissa / 10^scale` when both parts are within the decimal limits.
    pub fn from_parts(mantissa: i128, scale: u32) -> (r: Option<Amount>)
        ensures
            r is Some <==> (scale <= MAX_SCALE && -MAX_MANTISSA <= mantissa <= MAX_MANTISSA),
            r matches Some(a) ==> a.mantissa_of() == mantissa as int && a.scale_of()
                == scale as nat,
    {
        if scale <= MAX_SCALE && -MAX_MANTISSA <= mantissa && mantissa <= MAX_MANTISSA {
            Some(Amount { mantissa, scale })
        } else {
            None
        }
    }

    pub fn mantissa(&self) -> (r: i128)
        ensures
            r as int == self.mantissa_of(),
    {
        self.mantissa
    }

    pub fn scale(&self) -> (r: u32)
        ensures
            r as nat == self.scale_of(),
    {
        self.scale
    }
}

impl View for Amount {
    type V = int;

    open spec fn view(&self) -> int {
        self.value()
    }
}

/// The sum (or difference) of `a` and `b` is computed exactly by
/// `rust_decimal`: both operands, brought to the larger scale, and the result
/// fit in the 96-bit mantissa.
pub open spec fn sum_fits(a: Amount, b: Amount, r: int) -> bool {
    let s = max_scale(a.scale_of(), b.scale_of()) as int;
    &&& in_range(a@, s)
    &&& in_range(b@, s)
    &&& in_range(r, s)
}

/// Fractional digits of a sum or difference as `rust_decimal` forms it: a
/// zero operand hands back the other operand, digits and all; otherwise the
/// larger of the two scales (when the result fits, see `sum_fits`).
pub open spec fn sum_scale_of(a: int, a_scale: nat, b: int, b_scale: nat) -> nat {
    if a == 0 {
        b_scale
    } else if b == 0 {
        a_scale
    } else {
        max_scale(a_scale, b_scale)
    }
}

/// Fractional digits of `a * k` for a whole `k`: zero for a zero product,
/// else those of `a`.
pub open spec fn product_scale_of(a: int, a_scale: nat, k: int) -> nat {
    if a == 0 || k == 0 {
        0
    } else {
        a_scale
    }
}

/// Fractional digits that `rust_decimal`'s division leaves on the exact
/// quotient of the amount with value `a` (in units of `10^-28`) and `scale`
/// digits by `k`: it scales the quotient up until the remainder is gone,
/// then strips trailing zeros in steps of 8, 4, 2 and 1.
pub uninterp spec fn quotient_scale(a: int, scale: nat, k: u32) -> nat;

/// `a + b`, by `<Decimal as Add>::add`.
///
/// Claimed of `rust_decimal`: when both operands, brought to the larger of the
/// two scales, and their sum fit in 96 bits, the sum is exact; a zero operand
/// hands back the other operand, and otherwise the result carries the larger
/// scale (`sum_scale_of`).
#[verifier::external_body]
pub(crate) fn dec_add(a: Amount, b: Amount) -> (r: Amount)
    requires
        sum_fits(a, b, a@ + b@),
    ensures
        r@ == a@ + b@,
        r.scale_of() == sum_scale_of(a@, a.scale_of(), b@, b.scale_of()),
{
    let d = Decimal::from_i128_with_scale(a.mantissa, a.scale) + Decimal::from_i128_with_scale(
        b.mantissa,
        b.scale,
    );
    Amount { mantissa: d.mantissa(), scale: d.scale() }
}

/// `a - b`, by `<Decimal as Sub>::sub`; exact, and with the same scale, under
/// the same conditions as `dec_add` (a zero `a` gives `-b`, a zero `b` gives
/// `a`).
#[verifier::external_body]
pub(crate) fn dec_sub(a: Amount, b: Amount) -> (r: Amount)
    requires
        sum_fits(a, b, a@ - b@),
    ensures
        r@ == a@ - b@,
        r.scale_of() == sum_scale_of(a@, a.scale_of(), b@, b.scale_of()),
{
    let d = Decimal::from_i128_with_scale(a.mantissa, a.scale) - Decimal::from_i128_with_scale(
        b.mantissa,
        b.scale,
    );
    Amount { mantissa: d.mantissa(), scale: d.scale() }
}

/// `a * Decimal::from(k)`, by `<Decimal as Mul>::mul`.
///
/// Claimed of `rust_decimal`: when the product of the mantissas fits in 96
/// bits the product is exact, with the scale of `a` (zero when either factor
/// is zero).
#[verifier::external_body]
pub(crate) fn dec_mul_u32(a: Amount, k: u32) -> (r: Amount)
    requires
        in_range(a@ * k, a.scale_of() as int),
    ensures
        r@ == a@ * k,
        r.scale_of() == product_scale_of(a@, a.scale_of(), k as int),
{
    let d = Decimal::from_i128_with_scale(a.mantissa, a.scale) * Decimal::from(k);
    Amount { mantissa: d.mantissa(), scale: d.scale() }
}

/// `a / Decimal::from(k)` for a divisor `k` of 100, by `<Decimal as Div>::div`.
///
/// Claimed of `rust_decimal`: the quotient is exact when it can be written
/// with at most 28 fractional digits and a 96-bit mantissa; here it needs at
/// most two more digits than `a`, and the result carries no more than that.
/// A zero dividend gives zero with no fractional digits; a mantissa that `k`
/// divides keeps the scale of `a`; otherwise the scale is what the scaling and
/// trailing-zero stripping leave, named `quotient_scale`.
#[verifier::external_body]
pub(crate) fn dec_div_u32(a: Amount, k: u32) -> (r: Amount)
    requires
        k > 0,
        100u32 % k == 0,
        a.scale_of() + 2 <= MAX_SCALE,
        in_range(a@ / (k as int), (a.scale_of() + 2) as int),
    ensures
        r@ * k == a@,
        r@ == a@ / (k as int),
        r.scale_of() <= a.scale_of() + 2,
        r.scale_of() == quotient_scale(a@, a.scale_of(), k),
        a@ == 0 ==> r.scale_of() == 0,
        a@ != 0 && a.mantissa_of() % (k as int) == 0 ==> r.scale_of() == a.scale_of(),
{
    let d = Decimal::from_i128_with_scale(a.mantissa, a.scale) / Decimal::from(k);
    Amount { mantissa: d.mantissa(), scale: d.scale() }
}

/// `a > b`, by `<Decimal as PartialOrd>::gt`, which compares values.
#[verifier::external_body]
pub(crate) fn dec_gt(a: Amount, b: Amount) -> (r: bool)
    ensures
        r == (a@ > b@),
{
    Decimal::from_i128_with_scale(a.mantissa, a.scale) > Decimal::from_i128_with_scale(
        b.mantissa,
        b.scale,
    )
}

/// `a >= b`, by `<Decimal as PartialOrd>::ge`, which compares values.
#[verifier::external_body]
pub(crate) fn dec_ge(a: Amount, b: Amount) -> (r: bool)
    ensures
        r == (a@ >= b@),
{
    Decimal::from_i128_with_scale(a.mantissa, a.scale) >= Decimal::from_i128_with_scale(
        b.mantissa,
        b.scale,
    )
}

/// `a == b`, by `<Decimal as PartialEq>::eq`, which compares values.
#[verifier::external_body]
pub(crate) fn dec_eq(a: Amount, b: Amount) -> (r: bool)
    ensures
        r == (a@ == b@),
{
    Decimal::from_i128_with_scale(a.mantissa, a.scale) == Decimal::from_i128_with_scale(
        b.mantissa,
        b.scale,
    )
}

impl PartialEq for Amount {
    fn eq(&self, other: &Amount) -> (r: bool) {
        dec_eq(*self, *other)
    }
}

impl vstd::std_specs::cmp::PartialEqSpecImpl for Amount {
    open spec fn obeys_eq_spec() -> bool {
        true
    }

    open spec fn eq_spec(&self, other: &Amount) -> bool {
        self@ == other@
    }
}

} // verus!
