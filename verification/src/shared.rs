//! Shared routing-core vocabulary: node kinds, mix selection, port
//! direction, per-node profile records and the routing error kinds.

use vstd::prelude::*;

verus! {

/// The closed set of logical node kinds.
///
/// A node is a *source* iff it is `PhysicalSource` or `VirtualSource`,
/// and a *target* iff it is `PhysicalTarget` or `VirtualTarget`.
#[derive(Clone, Copy, PartialEq, Eq, Structural, Debug)]
pub enum NodeType {
    PhysicalSource,
    VirtualSource,
    PhysicalTarget,
    VirtualTarget,
}

/// Per-target selection of which of a source's two filter nodes feeds it.
#[derive(Clone, Copy, PartialEq, Eq, Structural, Debug)]
pub enum Mix {
    A,
    B,
}

/// Port direction as reported by the host graph.
#[derive(Clone, Copy, PartialEq, Eq, Structural, Debug)]
pub enum Direction {
    In,
    Out,
}

/// True for the two source kinds.
pub open spec fn is_source_kind(k: NodeType) -> bool {
    k == NodeType::PhysicalSource || k == NodeType::VirtualSource
}

/// True for the two target kinds.
pub open spec fn is_target_kind(k: NodeType) -> bool {
    k == NodeType::PhysicalTarget || k == NodeType::VirtualTarget
}

impl NodeType {
    /// Executable test matching [`is_source_kind`].
    pub fn is_source(&self) -> (r: bool)
        ensures
            r == is_source_kind(*self),
    {
        matches!(self, NodeType::PhysicalSource | NodeType::VirtualSource)
    }

    /// Executable test matching [`is_target_kind`].
    pub fn is_target(&self) -> (r: bool)
        ensures
            r == is_target_kind(*self),
    {
        matches!(self, NodeType::PhysicalTarget | NodeType::VirtualTarget)
    }
}

/// The pair of filter-node host ids a source owns, one per [`Mix`].
#[derive(Clone, Copy, PartialEq, Eq, Structural, Debug)]
pub struct FilterPair {
    pub mix_a: u32,
    pub mix_b: u32,
}

impl FilterPair {
    /// The filter id for the given mix.
    pub open spec fn spec_for_mix(self, mix: Mix) -> u32 {
        if mix == Mix::A {
            self.mix_a
        } else {
            self.mix_b
        }
    }

    /// Selects the filter id for the given mix.
    pub fn for_mix(&self, mix: Mix) -> (r: u32)
        ensures
            r == self.spec_for_mix(mix),
    {
        match mix {
            Mix::A => self.mix_a,
            Mix::B => self.mix_b,
        }
    }
}

/// The profile's record for one logical node: its kind, a display name,
/// a match key against registry names (physical nodes only), and the
/// currently active mix (meaningful for targets only).
#[derive(Debug)]
pub struct NodeDef {
    pub kind: NodeType,
    pub name: String,
    pub match_key: Option<String>,
    pub mix: Mix,
}

/// The caller-visible error kinds of the routing engine.
#[derive(Clone, Copy, PartialEq, Eq, Structural, Debug)]
pub enum RoutingError {
    /// A logical id is absent from the node store.
    NodeNotFound,
    /// A source was used as a target or vice versa.
    KindMismatch,
    /// The source's filter pair has not been instantiated yet.
    NoSourceMap,
    /// The requested mutation matches the current state.
    AlreadySet,
}

} // verus!
