use vstd::prelude::*;

verus! {

/// The single error the adapter can propagate: the optional address filter
/// was not a valid hexadecimal string. Everything else that does not match
/// (a log that fails to decode, an event that yields no message) is silently
/// skipped rather than reported.
#[derive(Debug, Clone, Copy, PartialEq, Eq, Structural)]
pub enum DecodeError {
    InvalidFilter,
}

} // verus!
