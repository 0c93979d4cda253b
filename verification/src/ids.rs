//! Identifiers, currencies, money and the error type shared by every aggregate.
//!
//! Identifiers are UUIDs, held as their 128 bits (the big-endian reading of
//! the UUID's 16 bytes, as `Uuid::as_u128` gives it).

use vstd::prelude::*;

use crate::amount::Amount;

verus! {

/// A fresh random identifier, as the 128 bits of a version 4 UUID.
///
/// Calls `uuid::Uuid::new_v4`. The result is random; the contract only says
/// that the version nibble is 4 and the variant bits are `10`, which the
/// `uuid` documentation promises of every v4 UUID.
#[verifier::external_body]
pub(crate) fn random_uuid() -> (r: u128)
    ensures
        is_v4_uuid(r),
{
    uuid::Uuid::new_v4().as_u128()
}

/// The bits of a version 4 UUID: version nibble 4, variant bits `10`.
pub open spec fn is_v4_uuid(bits: u128) -> bool {
    &&& (bits >> 76u128) & 0xfu128 == 4u128
    &&& (bits >> 62u128) & 0x3u128 == 2u128
}

/// The lowercase hexadecimal digit for `d` (0..16).
pub open spec fn hex_digit(d: u128) -> char {
    if d < 10 {
        ((d + 48) as u8) as char
    } else {
        ((d + 87) as u8) as char
    }
}

/// Position, among the 32 hex digits, of character `i` of the hyphenated form.
pub open spec fn uuid_digit_index(i: int) -> int {
    if i < 8 {
        i
    } else if i < 13 {
        i - 1
    } else if i < 18 {
        i - 2
    } else if i < 23 {
        i - 3
    } else {
        i - 4
    }
}

/// The hyphenated lowercase text of a UUID: 32 hex digits, most significant
/// first, in groups of 8-4-4-4-12 separated by `-`.
pub open spec fn uuid_text(id: u128) -> Seq<char> {
    Seq::new(
        36,
        |i: int|
            if i == 8 || i == 13 || i == 18 || i == 23 {
                '-'
            } else {
                hex_digit((id >> ((4 * (31 - uuid_digit_index(i))) as u128)) & 0xfu128)
            },
    )
}

/// The text of a UUID, by `<uuid::Uuid as Display>::fmt`, which writes the
/// hyphenated lowercase form.
#[verifier::external_body]
pub(crate) fn uuid_to_string(id: u128) -> (r: String)
    ensures
        r@ == uuid_text(id),
{
    uuid::Uuid::from_u128(id).to_string()
}

#[derive(Clone, Copy, Debug, PartialEq, Eq, Hash, Structural)]
pub struct VenueID(pub u128);

#[derive(Clone, Copy, Debug, PartialEq, Eq, Hash, PartialOrd, Ord, Structural)]
pub struct OrderID(pub u128);

#[derive(Clone, Copy, Debug, PartialEq, Eq, Hash, Structural)]
pub struct OrderItemID(pub u128);

#[derive(Clone, Copy, Debug, PartialEq, Eq, Hash, Structural)]
pub struct MenuItemID(pub u128);

#[derive(Clone, Copy, Debug, PartialEq, Eq, Hash, Structural)]
pub struct CheckID(pub u128);

#[derive(Clone, Copy, Debug, PartialEq, Eq, Hash, Structural)]
pub struct PaymentID(pub u128);

#[derive(Clone, Copy, Debug, PartialEq, Eq, Hash, Structural)]
pub struct TableID(pub u128);

#[derive(Clone, Copy, Debug, PartialEq, Eq, Hash, Structural)]
pub struct AreaID(pub u128);

#[derive(Clone, Copy, Debug, PartialEq, Eq, Hash, Structural)]
pub struct ActorID(pub u128);

impl VenueID {
    /// A fresh random identifier.
    pub fn new() -> (r: Self)
        ensures
            is_v4_uuid(r.0),
    {
        VenueID(random_uuid())
    }
}

impl OrderID {
    /// A fresh random identifier.
    pub fn new() -> (r: Self)
        ensures
            is_v4_uuid(r.0),
    {
        OrderID(random_uuid())
    }
}

impl OrderItemID {
    /// A fresh random identifier.
    pub fn new() -> (r: Self)
        ensures
            is_v4_uuid(r.0),
    {
        OrderItemID(random_uuid())
    }
}

impl MenuItemID {
    /// A fresh random identifier.
    pub fn new() -> (r: Self)
        ensures
            is_v4_uuid(r.0),
    {
        MenuItemID(random_uuid())
    }
}

impl CheckID {
    /// A fresh random identifier.
    pub fn new() -> (r: Self)
        ensures
            is_v4_uuid(r.0),
    {
        CheckID(random_uuid())
    }
}

impl PaymentID {
    /// A fresh random identifier.
    pub fn new() -> (r: Self)
        ensures
            is_v4_uuid(r.0),
    {
        PaymentID(random_uuid())
    }
}

impl TableID {
    /// A fresh random identifier.
    pub fn new() -> (r: Self)
        ensures
            is_v4_uuid(r.0),
    {
        TableID(random_uuid())
    }
}

impl AreaID {
    /// A fresh random identifier.
    pub fn new() -> (r: Self)
        ensures
            is_v4_uuid(r.0),
    {
        AreaID(random_uuid())
    }
}

impl ActorID {
    /// A fresh random identifier.
    pub fn new() -> (r: Self)
        ensures
            is_v4_uuid(r.0),
    {
        ActorID(random_uuid())
    }
}

#[derive(Clone, Copy, Debug, PartialEq, Eq, Hash, Structural)]
pub enum Currency {
    GBP,
    EUR,
    USD,
    AUD,
    CAD,
}

/// An amount in a currency.
#[derive(Clone, Copy, Debug)]
pub struct Money {
    pub amount: Amount,
    pub currency: Currency,
}

impl Money {
    pub fn gbp(amount: Amount) -> (r: Money)
        ensures
            r == (Money { amount, currency: Currency::GBP }),
    {
        Money { amount, currency: Currency::GBP }
    }

    pub fn usd(amount: Amount) -> (r: Money)
        ensures
            r == (Money { amount, currency: Currency::USD }),
    {
        Money { amount, currency: Currency::USD }
    }
}

/// Why a command or an event was refused.
#[derive(Debug)]
pub enum PosError {
    Validation(String),
    NotFound(String),
    Conflict(String),
}

/// The error with its message read as characters.
pub enum PosErrorView {
    Validation(Seq<char>),
    NotFound(Seq<char>),
    Conflict(Seq<char>),
}

impl View for PosError {
    type V = PosErrorView;

    open spec fn view(&self) -> PosErrorView {
        match self {
            PosError::Validation(m) => PosErrorView::Validation(m@),
            PosError::NotFound(m) => PosErrorView::NotFound(m@),
            PosError::Conflict(m) => PosErrorView::Conflict(m@),
        }
    }
}

/// `r` failed with exactly this error.
pub open spec fn err_is<T>(r: Result<T, PosError>, v: PosErrorView) -> bool {
    match r {
        Err(e) => e@ == v,
        Ok(_) => false,
    }
}

impl PosError {
    pub fn validation(msg: &str) -> (r: PosError)
        ensures
            r@ == PosErrorView::Validation(msg@),
    {
        PosError::Validation(msg.to_owned())
    }

    pub fn not_found(msg: &str) -> (r: PosError)
        ensures
            r@ == PosErrorView::NotFound(msg@),
    {
        PosError::NotFound(msg.to_owned())
    }

    pub fn conflict(msg: &str) -> (r: PosError)
        ensures
            r@ == PosErrorView::Conflict(msg@),
    {
        PosError::Conflict(msg.to_owned())
    }
}

} // verus!
