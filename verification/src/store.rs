use vstd::prelude::*;

verus! {

/// Writing the implementing value into a host-managed store handle. The
/// write semantics (overwrite, append, merge) belong to the destination
/// store kind, not to this interface, so the methods carry no contract:
/// the handle is opaque and its behaviour is the host's.
pub trait Store<T> {
    /// Writes this value into the store.
    fn store(&self, store: &T);
}

/// Like `Store`, but the written value is understood to expire after a
/// host-defined duration; `clear` removes it before expiry.
pub trait TimeStore<T> {
    /// Writes this value into the store for a host-defined duration.
    fn store(&self, store: &T);

    /// Proactively removes the value before it expires.
    fn clear(&self);
}

} // verus!
