//! Identifiers used throughout the routing core.
//!
//! A [`LogicalId`] is the profile-scope stable 128-bit identifier carried
//! by every source, target and filter node the daemon defines.  Host-graph
//! object ids are plain `u32` values assigned by the host and are used
//! directly as map keys.

use crate::amap::MapKey;
use vstd::prelude::*;

verus! {

/// A stable, profile-scope 128-bit identifier for a logical node.
///
/// The host graph's own ids are ephemeral `u32` values; the profile refers
/// to nodes only through these stable ids.
#[derive(Clone, Copy, PartialEq, Eq, Structural, Debug, Hash)]
pub struct LogicalId {
    pub value: u128,
}

impl LogicalId {
    /// Builds an id from its raw 128-bit value.
    pub fn new(value: u128) -> (r: LogicalId)
        ensures
            r.value == value,
    {
        LogicalId { value }
    }
}

impl MapKey for LogicalId {
    fn key_eq(&self, other: &Self) -> (r: bool)
        ensures
            r == (*self == *other),
    {
        self.value == other.value
    }
}

} // verus!
