use vstd::prelude::*;

use crate::error::DecodeError;

verus! {

/// The lowercase hexadecimal digit for a value below sixteen.
pub open spec fn hex_digit_char(n: u8) -> char
    recommends
        n < 16,
{
    if n == 0 {
        '0'
    } else if n == 1 {
        '1'
    } else if n == 2 {
        '2'
    } else if n == 3 {
        '3'
    } else if n == 4 {
        '4'
    } else if n == 5 {
        '5'
    } else if n == 6 {
        '6'
    } else if n == 7 {
        '7'
    } else if n == 8 {
        '8'
    } else if n == 9 {
        '9'
    } else if n == 10 {
        'a'
    } else if n == 11 {
        'b'
    } else if n == 12 {
        'c'
    } else if n == 13 {
        'd'
    } else if n == 14 {
        'e'
    } else {
        'f'
    }
}

/// The lowercase hexadecimal encoding of a byte sequence: two digits per
/// byte, high nibble first.
pub open spec fn hex_of(bytes: Seq<u8>) -> Seq<char>
    decreases bytes.len(),
{
    if bytes.len() == 0 {
        Seq::empty()
    } else {
        seq![
            hex_digit_char((bytes[0] / 16) as u8),
            hex_digit_char((bytes[0] % 16) as u8),
        ] + hex_of(bytes.drop_first())
    }
}

/// A character that decoding accepts: either case of the hexadecimal digits.
pub open spec fn is_hex_digit(c: char) -> bool {
    ('0' <= c && c <= '9') || ('a' <= c && c <= 'f') || ('A' <= c && c <= 'F')
}

/// The numeric value of a hexadecimal digit of either case.
pub open spec fn hex_val(c: char) -> u8
    recommends
        is_hex_digit(c),
{
    if '0' <= c && c <= '9' {
        (c as u8 - '0' as u8) as u8
    } else if 'a' <= c && c <= 'f' {
        (c as u8 - 'a' as u8 + 10) as u8
    } else {
        (c as u8 - 'A' as u8 + 10) as u8
    }
}

/// A sequence of characters that decodes as hexadecimal: an even number of
/// digits, each of either case.
pub open spec fn valid_hex(s: Seq<char>) -> bool {
    s.len() % 2 == 0 && forall|i: int| 0 <= i < s.len() ==> is_hex_digit(#[trigger] s[i])
}

/// The bytes a sequence of hexadecimal digits decodes to, two digits per
/// byte, high nibble first.
pub open spec fn from_hex(s: Seq<char>) -> Seq<u8>
    recommends
        valid_hex(s),
    decreases s.len(),
{
    if s.len() < 2 {
        Seq::empty()
    } else {
        seq![(hex_val(s[0]) * 16 + hex_val(s[1])) as u8] + from_hex(s.skip(2))
    }
}

/// A leading "0x" is dropped before decoding; anything else is kept whole.
pub open spec fn strip_hex_prefix(s: Seq<char>) -> Seq<char> {
    if s.len() >= 2 && s[0] == '0' && s[1] == 'x' {
        s.skip(2)
    } else {
        s
    }
}

/// What an address filter string decodes to: the bytes of its hexadecimal
/// digits after an optional "0x" prefix, or nothing when the digits are not
/// valid hexadecimal.
pub open spec fn parse_filter(s: Seq<char>) -> Option<Seq<u8>> {
    if valid_hex(strip_hex_prefix(s)) {
        Some(from_hex(strip_hex_prefix(s)))
    } else {
        None
    }
}

/// Relies on substreams::Hex::encode: two lowercase hexadecimal digits for
/// each byte, high nibble first, with no prefix.
#[verifier::external_body]
fn hex_encode(bytes: &[u8]) -> (r: String)
    ensures
        r@ == hex_of(bytes@),
{
    substreams::Hex::encode(bytes)
}

/// Relies on substreams::Hex::decode: it drops a leading "0x", then decodes
/// the rest as hexadecimal of either case, failing on an odd count or a
/// stray character. It reads the first two bytes unconditionally, so the
/// string must hold at least two characters.
#[verifier::external_body]
fn hex_decode(address: &str) -> (r: Option<Vec<u8>>)
    requires
        address@.len() >= 2,
    ensures
        match r {
            Some(v) => parse_filter(address@) == Some(v@),
            None => parse_filter(address@) is None,
        },
{
    match substreams::Hex::decode(address) {
        Ok(v) => Some(v),
        Err(_) => None,
    }
}

/// Formats bytes as lowercase hexadecimal text with a "0x" prefix.
pub fn format_hex(hex: &[u8]) -> (r: String)
    ensures
        r@ == seq!['0', 'x'] + hex_of(hex@),
{
    let encoded = hex_encode(hex);
    let mut out = String::from_str("0x");
    proof {
        reveal_strlit("0x");
        assert(out@ =~= seq!['0', 'x']);
    }
    out.append(encoded.as_str());
    proof {
        assert(out@ =~= seq!['0', 'x'] + hex_of(hex@));
    }
    out
}

/// Decodes an optional-prefix hexadecimal address filter, or reports the one
/// error the adapter knows: the filter is not valid hexadecimal.
pub fn decode_filter(address: &str) -> (r: Result<Vec<u8>, DecodeError>)
    ensures
        match parse_filter(address@) {
            Some(f) => r matches Ok(v) && v@ == f,
            None => r == Err::<Vec<u8>, DecodeError>(DecodeError::InvalidFilter),
        },
{
    let n: usize = address.unicode_len();
    if n >= 2 {
        match hex_decode(address) {
            Some(v) => Ok(v),
            None => Err(DecodeError::InvalidFilter),
        }
    } else if n == 0 {
        proof {
            assert(strip_hex_prefix(address@) =~= address@);
            assert(valid_hex(address@));
            assert(from_hex(address@) =~= Seq::<u8>::empty());
        }
        let empty: Vec<u8> = Vec::new();
        proof {
            assert(empty@ =~= Seq::<u8>::empty());
        }
        Ok(empty)
    } else {
        proof {
            assert(strip_hex_prefix(address@) == address@);
            assert(address@.len() % 2 != 0);
        }
        Err(DecodeError::InvalidFilter)
    }
}

/// Each value below sixteen is printed as a digit that reads back as itself.
pub proof fn lemma_hex_digit_val(n: u8)
    requires
        n < 16,
    ensures
        is_hex_digit(hex_digit_char(n)),
        hex_val(hex_digit_char(n)) == n,
{
}

/// The hexadecimal encoding of any byte sequence is valid hexadecimal, with
/// two digits per byte.
pub proof fn lemma_hex_of_valid(bytes: Seq<u8>)
    ensures
        valid_hex(hex_of(bytes)),
        hex_of(bytes).len() == 2 * bytes.len(),
    decreases bytes.len(),
{
    if bytes.len() == 0 {
    } else {
        lemma_hex_digit_val((bytes[0] / 16) as u8);
        lemma_hex_digit_val((bytes[0] % 16) as u8);
        lemma_hex_of_valid(bytes.drop_first());
        let s = hex_of(bytes);
        let rest = hex_of(bytes.drop_first());
        assert forall|i: int| 0 <= i < s.len() implies is_hex_digit(#[trigger] s[i]) by {
            if i >= 2 {
                assert(s[i] == rest[i - 2]);
            }
        }
    }
}

/// Decoding the hexadecimal encoding of a byte sequence yields the bytes
/// back unchanged.
pub proof fn lemma_hex_round_trip(bytes: Seq<u8>)
    ensures
        from_hex(hex_of(bytes)) == bytes,
    decreases bytes.len(),
{
    if bytes.len() == 0 {
        assert(from_hex(hex_of(bytes)) =~= bytes);
    } else {
        let s = hex_of(bytes);
        lemma_hex_of_valid(bytes);
        lemma_hex_digit_val((bytes[0] / 16) as u8);
        lemma_hex_digit_val((bytes[0] % 16) as u8);
        lemma_hex_round_trip(bytes.drop_first());
        assert(s.skip(2) =~= hex_of(bytes.drop_first()));
        assert(hex_val(s[0]) * 16 + hex_val(s[1]) == bytes[0]);
        assert(from_hex(s) =~= bytes);
    }
}

/// Round trip through the textual form: a "0x"-prefixed hexadecimal
/// encoding parses back to exactly the bytes it was made from.
pub proof fn lemma_format_parse_round_trip(bytes: Seq<u8>)
    ensures
        parse_filter(seq!['0', 'x'] + hex_of(bytes)) == Some(bytes),
{
    let s = seq!['0', 'x'] + hex_of(bytes);
    assert(s[0] == '0' && s[1] == 'x');
    assert(strip_hex_prefix(s) =~= hex_of(bytes));
    lemma_hex_of_valid(bytes);
    lemma_hex_round_trip(bytes);
}

} // verus!
