use vstd::prelude::*;

use crate::hex::format_hex;
use crate::hex::hex_of;

verus! {

/// A decimal digit.
pub open spec fn is_dec_digit(c: char) -> bool {
    '0' <= c && c <= '9'
}

/// substreams::scalar::BigInt, carried opaquely through signatures: the
/// adapter never reads inside it, it only formats it.
#[verifier::external_type_specification]
#[verifier::external_body]
pub struct ExBigInt(substreams::scalar::BigInt);

/// The decimal numeral of a large integer: what its text formatter
/// returns, a function of the value alone.
pub uninterp spec fn decimal_of(value: substreams::scalar::BigInt) -> Seq<char>;

/// Relies on substreams::scalar::BigInt's Display, reached through
/// ToString: the decimal numeral of the value, an optional leading minus
/// followed by digits, with no leading zero, and the same text for the
/// same value every time.
#[verifier::external_body]
fn big_int_decimal(value: &substreams::scalar::BigInt) -> (r: String)
    ensures
        r@ == decimal_of(*value),
        r@.len() > 0,
        is_dec_digit(r@[0]) || r@[0] == '-',
        r@[0] == '-' ==> r@.len() >= 2,
        forall|i: int| 1 <= i < r@.len() ==> is_dec_digit(#[trigger] r@[i]),
        r@[0] == '0' ==> r@.len() == 1,
{
    value.to_string()
}

/// Text wrapper for store keys, store values and message fields: bytes
/// become their "0x"-prefixed lowercase hexadecimal text, large integers
/// their decimal numeral.
pub struct StringW(String);

impl View for StringW {
    type V = Seq<char>;

    closed spec fn view(&self) -> Seq<char> {
        self.0@
    }
}

impl StringW {
    /// Wraps a byte sequence as its "0x"-prefixed lowercase hexadecimal
    /// text.
    pub fn from_bytes(value: Vec<u8>) -> (r: StringW)
        ensures
            r@ == seq!['0', 'x'] + hex_of(value@),
    {
        StringW(format_hex(value.as_slice()))
    }

    /// Wraps a large integer as its decimal text.
    pub fn from_big_int(value: substreams::scalar::BigInt) -> (r: StringW)
        ensures
            r@ == decimal_of(value),
            r@.len() > 0,
            is_dec_digit(r@[0]) || r@[0] == '-',
            r@[0] == '-' ==> r@.len() >= 2,
            forall|i: int| 1 <= i < r@.len() ==> is_dec_digit(#[trigger] r@[i]),
            r@[0] == '0' ==> r@.len() == 1,
    {
        StringW(big_int_decimal(&value))
    }

    /// The wrapped text itself.
    pub fn into_string(self) -> (r: String)
        ensures
            r@ == self@,
    {
        self.0
    }
}

} // verus!
