//! Stable identities of runtime objects and signal connections.
use vstd::prelude::*;

verus! {

/// Stable public identity of a runtime object.
///
/// The raw value is the key under which an [`ObjectTree`](crate::object_tree::ObjectTree)
/// indexes the object.
#[derive(Clone, Copy, Debug, PartialEq, Eq, Hash, Structural)]
pub struct ObjectId(pub u64);

impl ObjectId {
    /// Wraps a raw identifier.
    pub fn from_raw(raw: u64) -> (r: ObjectId)
        ensures
            r.0 == raw,
    {
        ObjectId(raw)
    }

    /// Returns the raw identifier.
    pub fn raw(&self) -> (r: u64)
        ensures
            r == self.0,
    {
        self.0
    }
}

/// Identity of one signal-to-slot connection.
#[derive(Clone, Copy, Debug, PartialEq, Eq, Hash, Structural)]
pub struct ConnectionId(pub u64);

impl ConnectionId {
    /// Wraps a raw identifier.
    pub fn from_raw(raw: u64) -> (r: ConnectionId)
        ensures
            r.0 == raw,
    {
        ConnectionId(raw)
    }

    /// Returns the raw identifier.
    pub fn raw(&self) -> (r: u64)
        ensures
            r == self.0,
    {
        self.0
    }
}

} // verus!
