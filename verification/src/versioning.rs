//! The schema version carried by command and event envelopes.

use vstd::prelude::*;

use crate::ids::{PosError, PosErrorView};

verus! {

/// Current JSON schema version for command and event envelopes.
pub const SCHEMA_VERSION: u16 = 2u16;

/// Minimum schema version accepted when decoding (only the current one).
pub const MIN_SUPPORTED_SCHEMA_VERSION: u16 = 2u16;

/// Maximum schema version accepted when decoding (only the current one).
pub const MAX_SUPPORTED_SCHEMA_VERSION: u16 = 2u16;

/// The schema version an envelope takes when it names none.
pub fn default_schema_version() -> (r: u16)
    ensures
        r == SCHEMA_VERSION,
{
    SCHEMA_VERSION
}

pub open spec fn decimal_digit(d: nat) -> char {
    ((d + 48) as u8) as char
}

/// The decimal text of `n`, most significant digit first, with no leading zeros.
pub open spec fn decimal_text(n: nat) -> Seq<char>
    decreases n,
{
    if n < 10 {
        seq![decimal_digit(n)]
    } else {
        decimal_text(n / 10).push(decimal_digit(n % 10))
    }
}

/// The one-character text of the digit `d`.
fn digit_str(d: u16) -> (r: &'static str)
    requires
        d < 10,
    ensures
        r@ == seq![decimal_digit(d as nat)],
{
    proof {
        reveal_strlit("0");
        reveal_strlit("1");
        reveal_strlit("2");
        reveal_strlit("3");
        reveal_strlit("4");
        reveal_strlit("5");
        reveal_strlit("6");
        reveal_strlit("7");
        reveal_strlit("8");
        reveal_strlit("9");
    }
    match d {
        0 => "0",
        1 => "1",
        2 => "2",
        3 => "3",
        4 => "4",
        5 => "5",
        6 => "6",
        7 => "7",
        8 => "8",
        _ => "9",
    }
}

/// The decimal text of `v`, as `<u16 as Display>` writes it.
fn u16_to_string(v: u16) -> (r: String)
    ensures
        r@ == decimal_text(v as nat),
    decreases v,
{
    if v < 10 {
        digit_str(v).to_owned()
    } else {
        let mut text = u16_to_string(v / 10);
        text.append(digit_str(v % 10));
        text
    }
}

pub open spec fn schema_supported(version: u16) -> bool {
    MIN_SUPPORTED_SCHEMA_VERSION <= version <= MAX_SUPPORTED_SCHEMA_VERSION
}

/// Refuses a schema version this build cannot read; hosts call it on every
/// envelope they receive or load, before routing or replay.
pub fn ensure_supported_schema(version: u16) -> (r: Result<(), PosError>)
    ensures
        r is Ok <==> schema_supported(version),
        r matches Err(e) ==> e@ == PosErrorView::Validation(
            "unsupported schema_version "@ + decimal_text(version as nat),
        ),
{
    if version < MIN_SUPPORTED_SCHEMA_VERSION || version > MAX_SUPPORTED_SCHEMA_VERSION {
        let mut msg = "unsupported schema_version ".to_owned();
        let digits = u16_to_string(version);
        msg.append(digits.as_str());
        return Err(PosError::Validation(msg));
    }
    Ok(())
}

} // verus!
