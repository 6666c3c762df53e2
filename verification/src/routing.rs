//! The routing engine: given (source, target, enabled) it validates
//! node kinds, mutates the profile matrix, and emits the minimal link
//! operations consistent with the current mute state and the target's
//! active mix.
//!
//! Within a call, the profile mutation precedes the link effects: the
//! profile is authoritative, and a reload reconciles the realized graph
//! with it.

use crate::amap::AssocMap;
use crate::ids::LogicalId;
use crate::linkman::{spec_create_commands, spec_remove_commands, LinkManager, LinkPair};
use crate::profile::{route_set, MutePair, Profile};
use crate::shared::{is_source_kind, is_target_kind, FilterPair, Mix, NodeDef, NodeType,
    RoutingError};
use vstd::prelude::*;

verus! {

/// The manager owning the profile, the derived node state and the link
/// manager.
pub struct PipewireManager {
    pub profile: Profile,
    /// Each source's pair of filter nodes, indexed by mix.
    pub source_map: AssocMap<LogicalId, FilterPair>,
    /// Each target's single filter node.
    pub target_filter_map: AssocMap<LogicalId, u32>,
    pub link_manager: LinkManager,
}

/// The kind recorded for a logical id, if the profile defines it.
pub open spec fn kind_of(m: PipewireManager, id: LogicalId) -> Option<NodeType> {
    if m.profile.nodes@.contains_key(id) {
        Some(m.profile.nodes@[id].kind)
    } else {
        None
    }
}

/// The error a routing call reports before touching anything: an
/// unknown id, or a source used as a target or vice versa.
pub open spec fn route_validate(
    m: PipewireManager,
    source: LogicalId,
    target: LogicalId,
) -> Option<RoutingError> {
    if kind_of(m, source) is None || kind_of(m, target) is None {
        Some(RoutingError::NodeNotFound)
    } else if !is_source_kind(kind_of(m, source).unwrap()) || !is_target_kind(
        kind_of(m, target).unwrap(),
    ) {
        Some(RoutingError::KindMismatch)
    } else {
        None
    }
}

/// Whether the profile requests routing from `s` to `t`.
pub open spec fn route_on(m: PipewireManager, s: LogicalId, t: LogicalId) -> bool {
    route_set(m.profile, s).contains(t)
}

/// Whether the pair is currently muted.
pub open spec fn muted(m: PipewireManager, s: LogicalId, t: LogicalId) -> bool {
    m.profile.mutes@.dom().contains(MutePair { source: s, target: t })
}

/// The target's active mix.
pub open spec fn target_mix(m: PipewireManager, t: LogicalId) -> Mix {
    m.profile.nodes@[t].mix
}

/// The source's filter node for a mix.
pub open spec fn source_filter(m: PipewireManager, s: LogicalId, mix: Mix) -> u32 {
    m.source_map@[s].spec_for_mix(mix)
}

/// The target's filter node.
pub open spec fn target_filter(m: PipewireManager, t: LogicalId) -> u32 {
    m.target_filter_map@[t]
}

/// The ordered filter pair a route realizes under the target's active
/// mix.
pub open spec fn route_pair(m: PipewireManager, s: LogicalId, t: LogicalId) -> LinkPair {
    LinkPair {
        out_filter: source_filter(m, s, target_mix(m, t)),
        in_filter: target_filter(m, t),
    }
}

/// The set of realized filter-to-filter links the engine believes in.
pub open spec fn established(m: PipewireManager) -> Set<LinkPair> {
    m.link_manager.established_set()
}

/// The routing matrix after one toggle; everything else equal.
pub open spec fn routes_updated(
    m0: PipewireManager,
    m1: PipewireManager,
    s: LogicalId,
    t: LogicalId,
    enabled: bool,
) -> bool {
    &&& if enabled {
        &&& m1.profile.routes@.contains_key(s)
        &&& m1.profile.routes@[s]@.dom() == route_set(m0.profile, s).insert(t)
    } else {
        &&& m1.profile.routes@.contains_key(s) == m0.profile.routes@.contains_key(s)
        &&& m0.profile.routes@.contains_key(s) ==> m1.profile.routes@[s]@.dom() == route_set(
            m0.profile,
            s,
        ).remove(t)
    }
    &&& forall|s2: LogicalId|
        s2 != s ==> #[trigger] m1.profile.routes@.contains_key(s2)
            == m0.profile.routes@.contains_key(s2) && (m0.profile.routes@.contains_key(s2)
            ==> m1.profile.routes@[s2] == m0.profile.routes@[s2])
}

/// What one profile route pair needs so that `routing_load` can realize
/// it: the target's filter must be mapped, and when the pair is live
/// (not muted, source filters known) the target must be a defined
/// target node so its mix can be read.
pub open spec fn load_entry_ok(m: PipewireManager, s: LogicalId, t: LogicalId) -> bool {
    &&& m.target_filter_map@.contains_key(t)
    &&& (!muted(m, s, t) && m.source_map@.contains_key(s)) ==> (m.profile.nodes@.contains_key(t)
        && is_target_kind(m.profile.nodes@[t].kind))
}

/// `routing_load` succeeds exactly when every pair the profile
/// references can be resolved against the node store.
pub open spec fn load_resolvable(m: PipewireManager) -> bool {
    forall|s: LogicalId, t: LogicalId| #[trigger] route_on(m, s, t) ==> load_entry_ok(m, s, t)
}

/// `p` is the realized pair of a live, fully mapped route (s, t).
pub open spec fn desired_pair_ok(
    m: PipewireManager,
    s: LogicalId,
    t: LogicalId,
    p: LinkPair,
) -> bool {
    &&& route_on(m, s, t)
    &&& !muted(m, s, t)
    &&& m.source_map@.contains_key(s)
    &&& m.target_filter_map@.contains_key(t)
    &&& m.profile.nodes@.contains_key(t)
    &&& p == route_pair(m, s, t)
}

/// Every link the profile wants realized: one pair per live, fully
/// mapped route, under the target's active mix.
pub open spec fn desired_pairs(m: PipewireManager) -> Set<LinkPair> {
    Set::new(
        |p: LinkPair| exists|s: LogicalId, t: LogicalId| desired_pair_ok(m, s, t, p),
    )
}

/// `p` is the realized pair of the route stored at position `b` of the
/// route-table entry at position `a`, within the walk prefix (i, j).
pub open spec fn entry_pair_ok(
    m: PipewireManager,
    i: int,
    j: int,
    a: int,
    b: int,
    p: LinkPair,
) -> bool {
    &&& 0 <= a < m.profile.routes.entries_seq().len()
    &&& 0 <= b < m.profile.routes.entries_seq()[a].1.entries_seq().len()
    &&& (a < i || (a == i && b < j))
    &&& desired_no_route(
        m,
        m.profile.routes.entries_seq()[a].0,
        m.profile.routes.entries_seq()[a].1.entries_seq()[b].0,
        p,
    )
}

/// The conditions of [`desired_pair_ok`] except route membership,
/// which an entry position carries by construction.
pub open spec fn desired_no_route(
    m: PipewireManager,
    s: LogicalId,
    t: LogicalId,
    p: LinkPair,
) -> bool {
    &&& !muted(m, s, t)
    &&& m.source_map@.contains_key(s)
    &&& m.target_filter_map@.contains_key(t)
    &&& m.profile.nodes@.contains_key(t)
    &&& p == route_pair(m, s, t)
}

/// The pairs realized by the walk prefix up to entry `i`, target `j`.
pub open spec fn prefix_pairs(m: PipewireManager, i: int, j: int) -> Set<LinkPair> {
    Set::new(|p: LinkPair| exists|a: int, b: int| entry_pair_ok(m, i, j, a, b, p))
}

/// The walk prefix up to (i, j) met no unresolvable pair.
pub open spec fn processed_ok(m: PipewireManager, i: int, j: int) -> bool {
    forall|a: int, b: int|
        #![trigger m.profile.routes.entries_seq()[a].1.entries_seq()[b]]
        (0 <= a < m.profile.routes.entries_seq().len() && 0 <= b
            < m.profile.routes.entries_seq()[a].1.entries_seq().len() && (a < i || (a == i && b
            < j))) ==> load_entry_ok(
            m,
            m.profile.routes.entries_seq()[a].0,
            m.profile.routes.entries_seq()[a].1.entries_seq()[b].0,
        )
}

/// Whether a mix change re-links the route from `s` into `t`: the
/// route must be requested, unmuted, and both filters mapped.
pub open spec fn swap_applies(m: PipewireManager, s: LogicalId, t: LogicalId) -> bool {
    &&& route_set(m.profile, s).contains(t)
    &&& !muted(m, s, t)
    &&& m.source_map@.contains_key(s)
    &&& m.target_filter_map@.contains_key(t)
}

/// One source's share of a mix change: drop the link of the old mix,
/// realize the one of the new mix.
pub open spec fn swap_step(
    est: Set<LinkPair>,
    m: PipewireManager,
    s: LogicalId,
    t: LogicalId,
    old_mix: Mix,
    new_mix: Mix,
) -> Set<LinkPair> {
    if swap_applies(m, s, t) {
        est.remove(
            LinkPair { out_filter: source_filter(m, s, old_mix), in_filter: target_filter(m, t) },
        ).insert(
            LinkPair { out_filter: source_filter(m, s, new_mix), in_filter: target_filter(m, t) },
        )
    } else {
        est
    }
}

/// The realized link set after the first `i` route-table entries have
/// reacted to a mix change of target `t`, in table order.
pub open spec fn swap_fold(
    est: Set<LinkPair>,
    m: PipewireManager,
    t: LogicalId,
    old_mix: Mix,
    new_mix: Mix,
    i: int,
) -> Set<LinkPair>
    decreases i,
{
    if i <= 0 {
        est
    } else {
        swap_step(
            swap_fold(est, m, t, old_mix, new_mix, i - 1),
            m,
            m.profile.routes.entries_seq()[i - 1].0,
            t,
            old_mix,
            new_mix,
        )
    }
}

/// The route stored at an entry position is in the routing matrix.
proof fn lemma_route_on_at(m: PipewireManager, a: int, b: int)
    requires
        m.wf(),
        0 <= a < m.profile.routes.entries_seq().len(),
        0 <= b < m.profile.routes.entries_seq()[a].1.entries_seq().len(),
    ensures
        route_on(
            m,
            m.profile.routes.entries_seq()[a].0,
            m.profile.routes.entries_seq()[a].1.entries_seq()[b].0,
        ),
{
    let entries = m.profile.routes.entries_seq();
    let s = entries[a].0;
    let inner = entries[a].1;
    let t = inner.entries_seq()[b].0;
    crate::amap::lemma_seq_index_view(entries, a);
    assert(m.profile.routes@.contains_key(s) && m.profile.routes@[s] == inner);
    crate::amap::lemma_seq_index_view(inner.entries_seq(), b);
    assert(inner@.contains_key(t));
}

/// Every pair of a walk prefix is a desired pair.
proof fn lemma_prefix_subset_desired(m: PipewireManager, i: int, j: int)
    requires
        m.wf(),
    ensures
        prefix_pairs(m, i, j).subset_of(desired_pairs(m)),
{
    assert forall|p: LinkPair| prefix_pairs(m, i, j).contains(p) implies desired_pairs(m).contains(
        p,
    ) by {
        let (a, b): (int, int) = choose|a: int, b: int| #[trigger] entry_pair_ok(m, i, j, a, b, p);
        lemma_route_on_at(m, a, b);
        let s = m.profile.routes.entries_seq()[a].0;
        let t = m.profile.routes.entries_seq()[a].1.entries_seq()[b].0;
        assert(desired_pair_ok(m, s, t, p));
    }
}

/// The full walk realizes exactly the desired pairs.
proof fn lemma_prefix_full(m: PipewireManager)
    requires
        m.wf(),
    ensures
        prefix_pairs(m, m.profile.routes.entries_seq().len() as int, 0) == desired_pairs(m),
{
    let n = m.profile.routes.entries_seq().len() as int;
    lemma_prefix_subset_desired(m, n, 0);
    assert forall|p: LinkPair| desired_pairs(m).contains(p) implies prefix_pairs(m, n, 0).contains(
        p,
    ) by {
        let (s, t): (LogicalId, LogicalId) = choose|s: LogicalId, t: LogicalId|
            desired_pair_ok(m, s, t, p);
        let entries = m.profile.routes.entries_seq();
        assert(m.profile.routes@.contains_key(s));
        let a: int = choose|a: int| 0 <= a < entries.len() && entries[a].0 == s;
        crate::amap::lemma_seq_index_view(entries, a);
        assert(m.profile.routes@[s] == entries[a].1);
        let inner = entries[a].1;
        assert(inner@.contains_key(t));
        let b: int = choose|b: int|
            0 <= b < inner.entries_seq().len() && inner.entries_seq()[b].0 == t;
        assert(entry_pair_ok(m, n, 0, a, b, p));
    }
    assert(prefix_pairs(m, n, 0) =~= desired_pairs(m));
}

/// A walk that met no unresolvable pair proves the whole profile
/// resolvable.
proof fn lemma_resolvable_from_processed(m: PipewireManager)
    requires
        m.wf(),
        processed_ok(m, m.profile.routes.entries_seq().len() as int, 0),
    ensures
        load_resolvable(m),
{
    assert forall|s: LogicalId, t: LogicalId| #[trigger] route_on(m, s, t) implies load_entry_ok(
        m,
        s,
        t,
    ) by {
        let entries = m.profile.routes.entries_seq();
        assert(m.profile.routes@.contains_key(s));
        let a: int = choose|a: int| 0 <= a < entries.len() && entries[a].0 == s;
        crate::amap::lemma_seq_index_view(entries, a);
        let inner = entries[a].1;
        assert(inner@.contains_key(t));
        let b: int = choose|b: int|
            0 <= b < inner.entries_seq().len() && inner.entries_seq()[b].0 == t;
        assert(entries[a].1.entries_seq()[b] == inner.entries_seq()[b]);
    }
}

impl PipewireManager {
    /// Every internal table is well-formed.
    pub open spec fn wf(&self) -> bool {
        &&& self.profile.wf()
        &&& self.source_map.wf()
        &&& self.target_filter_map.wf()
        &&& self.link_manager.wf()
    }

    /// A manager with an empty profile, no filters and no links.
    pub fn new() -> (r: PipewireManager)
        ensures
            r.wf(),
            r.profile.routes@ == Map::<LogicalId, AssocMap<LogicalId, ()>>::empty(),
            r.profile.nodes@ == Map::<LogicalId, NodeDef>::empty(),
            r.profile.mutes@.dom() == Set::<MutePair>::empty(),
            r.source_map@ == Map::<LogicalId, FilterPair>::empty(),
            r.target_filter_map@ == Map::<LogicalId, u32>::empty(),
            established(r) == Set::<LinkPair>::empty(),
            r.link_manager.commands@ == Seq::<crate::linkman::HostCommand>::empty(),
    {
        PipewireManager {
            profile: Profile::new(),
            source_map: AssocMap::new(),
            target_filter_map: AssocMap::new(),
            link_manager: LinkManager::new(),
        }
    }

    /// The kind of a logical node, when the profile defines it.
    pub fn get_node_type(&self, id: LogicalId) -> (r: Option<NodeType>)
        requires
            self.wf(),
        ensures
            r == kind_of(*self, id),
    {
        match self.profile.nodes.get(&id) {
            Some(def) => Some(def.kind),
            None => None,
        }
    }

    /// The target's filter node, surfaced as an error when the node
    /// store has no mapping.
    pub fn get_target_filter_node(&self, id: LogicalId) -> (r: Result<u32, RoutingError>)
        requires
            self.wf(),
        ensures
            match r {
                Ok(f) => self.target_filter_map@.contains_key(id) && f == target_filter(*self, id),
                Err(e) => e == RoutingError::NodeNotFound && !self.target_filter_map@.contains_key(
                    id,
                ),
            },
    {
        match self.target_filter_map.get(&id) {
            Some(f) => Ok(*f),
            None => Err(RoutingError::NodeNotFound),
        }
    }

    /// The profile's record for a physical target.
    pub fn get_physical_target(&self, id: LogicalId) -> (r: Option<&NodeDef>)
        requires
            self.wf(),
        ensures
            match r {
                Some(d) => kind_of(*self, id) == Some(NodeType::PhysicalTarget) && *d
                    == self.profile.nodes@[id],
                None => kind_of(*self, id) != Some(NodeType::PhysicalTarget),
            },
    {
        match self.profile.nodes.get(&id) {
            Some(def) => if matches!(def.kind, NodeType::PhysicalTarget) {
                Some(def)
            } else {
                None
            },
            None => None,
        }
    }

    /// The profile's record for a virtual target.
    pub fn get_virtual_target(&self, id: LogicalId) -> (r: Option<&NodeDef>)
        requires
            self.wf(),
        ensures
            match r {
                Some(d) => kind_of(*self, id) == Some(NodeType::VirtualTarget) && *d
                    == self.profile.nodes@[id],
                None => kind_of(*self, id) != Some(NodeType::VirtualTarget),
            },
    {
        match self.profile.nodes.get(&id) {
            Some(def) => if matches!(def.kind, NodeType::VirtualTarget) {
                Some(def)
            } else {
                None
            },
            None => None,
        }
    }

    /// The profile's record for a physical source.
    pub fn get_physical_source(&self, id: LogicalId) -> (r: Option<&NodeDef>)
        requires
            self.wf(),
        ensures
            match r {
                Some(d) => kind_of(*self, id) == Some(NodeType::PhysicalSource) && *d
                    == self.profile.nodes@[id],
                None => kind_of(*self, id) != Some(NodeType::PhysicalSource),
            },
    {
        match self.profile.nodes.get(&id) {
            Some(def) => if matches!(def.kind, NodeType::PhysicalSource) {
                Some(def)
            } else {
                None
            },
            None => None,
        }
    }

    /// The profile's record for a virtual source.
    pub fn get_virtual_source(&self, id: LogicalId) -> (r: Option<&NodeDef>)
        requires
            self.wf(),
        ensures
            match r {
                Some(d) => kind_of(*self, id) == Some(NodeType::VirtualSource) && *d
                    == self.profile.nodes@[id],
                None => kind_of(*self, id) != Some(NodeType::VirtualSource),
            },
    {
        match self.profile.nodes.get(&id) {
            Some(def) => if matches!(def.kind, NodeType::VirtualSource) {
                Some(def)
            } else {
                None
            },
            None => None,
        }
    }

    /// Whether the source is currently suppressed into that target.
    pub fn is_source_muted_to_some(&self, source: LogicalId, target: LogicalId) -> (r: bool)
        requires
            self.wf(),
        ensures
            r == muted(*self, source, target),
    {
        self.profile.is_muted(source, target)
    }

    /// Records the pair of filter nodes instantiated for a source.
    pub fn register_source_filters(&mut self, id: LogicalId, filters: FilterPair)
        requires
            old(self).wf(),
        ensures
            final(self).wf(),
            final(self).source_map@ == old(self).source_map@.insert(id, filters),
            final(self).profile == old(self).profile,
            final(self).target_filter_map == old(self).target_filter_map,
            final(self).link_manager == old(self).link_manager,
    {
        self.source_map.insert(id, filters);
    }

    /// Records the filter node instantiated for a target.
    pub fn register_target_filter(&mut self, id: LogicalId, filter: u32)
        requires
            old(self).wf(),
        ensures
            final(self).wf(),
            final(self).target_filter_map@ == old(self).target_filter_map@.insert(id, filter),
            final(self).profile == old(self).profile,
            final(self).source_map == old(self).source_map,
            final(self).link_manager == old(self).link_manager,
    {
        self.target_filter_map.insert(id, filter);
    }

    /// The active mix of a target node.
    pub fn get_target_mix(&self, id: &LogicalId) -> (r: Result<Mix, RoutingError>)
        requires
            self.wf(),
        ensures
            match kind_of(*self, *id) {
                None => r == Err::<Mix, RoutingError>(RoutingError::NodeNotFound),
                Some(k) => if !is_target_kind(k) {
                    r == Err::<Mix, RoutingError>(RoutingError::KindMismatch)
                } else {
                    r == Ok::<Mix, RoutingError>(target_mix(*self, *id))
                },
            },
    {
        let node_type = match self.get_node_type(*id) {
            Some(k) => k,
            None => {
                return Err(RoutingError::NodeNotFound);
            },
        };
        if !node_type.is_target() {
            return Err(RoutingError::KindMismatch);
        }
        if matches!(node_type, NodeType::PhysicalTarget) {
            match self.get_physical_target(*id) {
                Some(def) => Ok(def.mix),
                None => Err(RoutingError::NodeNotFound),
            }
        } else {
            match self.get_virtual_target(*id) {
                Some(def) => Ok(def.mix),
                None => Err(RoutingError::NodeNotFound),
            }
        }
    }

    /// Same kind validation as a route change, then plain membership in
    /// the routing matrix; a missing entry reads as no route.
    pub fn routing_route_exists(&self, source: LogicalId, target: LogicalId) -> (r: Result<
        bool,
        RoutingError,
    >)
        requires
            self.wf(),
        ensures
            match route_validate(*self, source, target) {
                Some(e) => r == Err::<bool, RoutingError>(e),
                None => r == Ok::<bool, RoutingError>(route_on(*self, source, target)),
            },
    {
        let source_type = match self.get_node_type(source) {
            Some(k) => k,
            None => {
                return Err(RoutingError::NodeNotFound);
            },
        };
        let target_type = match self.get_node_type(target) {
            Some(k) => k,
            None => {
                return Err(RoutingError::NodeNotFound);
            },
        };
        if !source_type.is_source() {
            return Err(RoutingError::KindMismatch);
        }
        if !target_type.is_target() {
            return Err(RoutingError::KindMismatch);
        }
        Ok(self.profile.routes_contains(source, target))
    }

    /// Toggles one edge of the routing matrix and applies the minimal
    /// link effect: an enable creates the link unless the pair is
    /// muted; a disable removes it unconditionally.  A toggle that
    /// matches the current state is reported as an error and changes
    /// nothing.
    pub fn routing_set_route(
        &mut self,
        source: LogicalId,
        target: LogicalId,
        enabled: bool,
    ) -> (r: Result<(), RoutingError>)
        requires
            old(self).wf(),
        ensures
            final(self).wf(),
            ({
                let m0 = *old(self);
                let m1 = *final(self);
                match route_validate(m0, source, target) {
                    Some(e) => r == Err::<(), RoutingError>(e) && m1 == m0,
                    None => if !m0.target_filter_map@.contains_key(target) {
                        r == Err::<(), RoutingError>(RoutingError::NodeNotFound) && m1 == m0
                    } else if !m0.source_map@.contains_key(source) {
                        r == Err::<(), RoutingError>(RoutingError::NoSourceMap) && m1 == m0
                    } else if enabled == route_on(m0, source, target) {
                        r == Err::<(), RoutingError>(RoutingError::AlreadySet) && m1 == m0
                    } else {
                        &&& r == Ok::<(), RoutingError>(())
                        &&& routes_updated(m0, m1, source, target, enabled)
                        &&& m1.profile.nodes == m0.profile.nodes
                        &&& m1.profile.mutes == m0.profile.mutes
                        &&& m1.source_map == m0.source_map
                        &&& m1.target_filter_map == m0.target_filter_map
                        &&& m1.link_manager.filter_ports == m0.link_manager.filter_ports
                        &&& if enabled {
                            if !muted(m0, source, target) {
                                &&& established(m1) == established(m0).insert(
                                    route_pair(m0, source, target),
                                )
                                &&& m1.link_manager.commands@ == m0.link_manager.commands@
                                    + spec_create_commands(
                                    m0.link_manager,
                                    route_pair(m0, source, target).out_filter,
                                    route_pair(m0, source, target).in_filter,
                                )
                            } else {
                                m1.link_manager == m0.link_manager
                            }
                        } else {
                            &&& established(m1) == established(m0).remove(
                                route_pair(m0, source, target),
                            )
                            &&& m1.link_manager.commands@ == m0.link_manager.commands@
                                + spec_remove_commands(
                                m0.link_manager,
                                route_pair(m0, source, target).out_filter,
                                route_pair(m0, source, target).in_filter,
                            )
                        }
                    },
                }
            }),
    {
        let source_type = match self.get_node_type(source) {
            Some(k) => k,
            None => {
                return Err(RoutingError::NodeNotFound);
            },
        };
        let target_type = match self.get_node_type(target) {
            Some(k) => k,
            None => {
                return Err(RoutingError::NodeNotFound);
            },
        };
        if !source_type.is_source() {
            return Err(RoutingError::KindMismatch);
        }
        if !target_type.is_target() {
            return Err(RoutingError::KindMismatch);
        }
        let target_id = match self.get_target_filter_node(target) {
            Ok(f) => f,
            Err(e) => {
                return Err(e);
            },
        };
        let map = match self.source_map.get(&source) {
            Some(m) => *m,
            None => {
                return Err(RoutingError::NoSourceMap);
            },
        };
        let present = self.profile.routes_contains(source, target);
        if enabled == present {
            return Err(RoutingError::AlreadySet);
        }
        if enabled {
            self.profile.insert_route(source, target);
        } else {
            self.profile.remove_route(source, target);
        }
        let mix = match self.get_target_mix(&target) {
            Ok(m) => m,
            Err(e) => {
                return Err(e);
            },
        };
        if enabled {
            if !self.profile.is_muted(source, target) {
                self.link_manager.link_create_filter_to_filter(map.for_mix(mix), target_id);
            }
        } else {
            self.link_manager.link_remove_filter_to_filter(map.for_mix(mix), target_id);
        }
        Ok(())
    }

    /// Walks the whole routing matrix and realizes every live, fully
    /// mapped route under each target's active mix.  Fails only when
    /// the node store lacks a mapping the profile references; replaying
    /// a successful load realizes the same link set again.
    pub fn routing_load(&mut self) -> (r: Result<(), RoutingError>)
        requires
            old(self).wf(),
        ensures
            final(self).wf(),
            final(self).profile == old(self).profile,
            final(self).source_map == old(self).source_map,
            final(self).target_filter_map == old(self).target_filter_map,
            final(self).link_manager.filter_ports == old(self).link_manager.filter_ports,
            if load_resolvable(*old(self)) {
                &&& r == Ok::<(), RoutingError>(())
                &&& established(*final(self)) == established(*old(self)).union(
                    desired_pairs(*old(self)),
                )
            } else {
                &&& (r == Err::<(), RoutingError>(RoutingError::NodeNotFound) || r == Err::<
                    (),
                    RoutingError,
                >(RoutingError::KindMismatch))
                &&& established(*old(self)).subset_of(established(*final(self)))
                &&& established(*final(self)).subset_of(
                    established(*old(self)).union(desired_pairs(*old(self))),
                )
            },
    {
        let ghost m0 = *old(self);
        let n: usize = self.profile.routes.len();
        proof {
            assert forall|p: LinkPair| !prefix_pairs(m0, 0, 0).contains(p) by {}
            assert(established(m0).union(prefix_pairs(m0, 0, 0)) =~= established(m0));
        }
        let mut i: usize = 0;
        while i < n
            invariant
                self.wf(),
                m0 == *old(self),
                m0.wf(),
                self.profile == m0.profile,
                self.source_map == m0.source_map,
                self.target_filter_map == m0.target_filter_map,
                self.link_manager.filter_ports == m0.link_manager.filter_ports,
                n == m0.profile.routes.entries_seq().len(),
                0 <= i <= n,
                self.link_manager.established_set() == established(m0).union(
                    prefix_pairs(m0, i as int, 0),
                ),
                processed_ok(m0, i as int, 0),
            decreases n - i,
        {
            let s = self.profile.routes.key_at(i);
            let mlen: usize = self.profile.routes.value_at(i).len();
            let mut j: usize = 0;
            while j < mlen
                invariant
                    self.wf(),
                    m0 == *old(self),
                    m0.wf(),
                    self.profile == m0.profile,
                    self.source_map == m0.source_map,
                    self.target_filter_map == m0.target_filter_map,
                    self.link_manager.filter_ports == m0.link_manager.filter_ports,
                    n == m0.profile.routes.entries_seq().len(),
                    0 <= i < n,
                    0 <= j <= mlen,
                    s == m0.profile.routes.entries_seq()[i as int].0,
                    mlen == m0.profile.routes.entries_seq()[i as int].1.entries_seq().len(),
                    self.link_manager.established_set() == established(m0).union(
                        prefix_pairs(m0, i as int, j as int),
                    ),
                    processed_ok(m0, i as int, j as int),
                decreases mlen - j,
            {
                let t = self.profile.routes.value_at(i).key_at(j);
                proof {
                    assert(t == m0.profile.routes.entries_seq()[i as int].1.entries_seq()[
                        j as int
                    ].0);
                }
                let target_node = match self.get_target_filter_node(t) {
                    Ok(f) => f,
                    Err(e) => {
                        proof {
                            lemma_route_on_at(m0, i as int, j as int);
                            assert(!load_entry_ok(m0, s, t));
                            assert(!load_resolvable(m0));
                            lemma_prefix_subset_desired(m0, i as int, j as int);
                            assert(established(m0).subset_of(
                                self.link_manager.established_set(),
                            ));
                            assert(self.link_manager.established_set().subset_of(
                                established(m0).union(desired_pairs(m0)),
                            ));
                        }
                        return Err(e);
                    },
                };
                let live = !self.profile.is_muted(s, t);
                let map_opt = match self.source_map.get(&s) {
                    Some(mp) => Some(*mp),
                    None => None,
                };
                if live && map_opt.is_some() {
                    let filters = map_opt.unwrap();
                    let mix = match self.get_target_mix(&t) {
                        Ok(mx) => mx,
                        Err(e) => {
                            proof {
                                lemma_route_on_at(m0, i as int, j as int);
                                assert(!load_entry_ok(m0, s, t));
                                assert(!load_resolvable(m0));
                                lemma_prefix_subset_desired(m0, i as int, j as int);
                                assert(established(m0).subset_of(
                                    self.link_manager.established_set(),
                                ));
                                assert(self.link_manager.established_set().subset_of(
                                    established(m0).union(desired_pairs(m0)),
                                ));
                            }
                            return Err(e);
                        },
                    };
                    self.link_manager.link_create_filter_to_filter(
                        filters.for_mix(mix),
                        target_node,
                    );
                    proof {
                        let pair = route_pair(m0, s, t);
                        assert(entry_pair_ok(m0, i as int, j + 1, i as int, j as int, pair));
                        assert forall|p: LinkPair|
                            prefix_pairs(m0, i as int, j + 1).contains(p) == (p == pair
                                || prefix_pairs(m0, i as int, j as int).contains(p)) by {
                            if prefix_pairs(m0, i as int, j + 1).contains(p) {
                                let (a, b): (int, int) = choose|a: int, b: int|
                                    #[trigger] entry_pair_ok(m0, i as int, j + 1, a, b, p);
                                if a == i && b == j {
                                    assert(p == pair);
                                } else {
                                    assert(entry_pair_ok(m0, i as int, j as int, a, b, p));
                                }
                            }
                            if prefix_pairs(m0, i as int, j as int).contains(p) {
                                let (a, b): (int, int) = choose|a: int, b: int|
                                    #[trigger] entry_pair_ok(m0, i as int, j as int, a, b, p);
                                assert(entry_pair_ok(m0, i as int, j + 1, a, b, p));
                            }
                        }
                        assert(self.link_manager.established_set() =~= established(m0).union(
                            prefix_pairs(m0, i as int, j + 1),
                        ));
                    }
                } else {
                    proof {
                        assert forall|p: LinkPair|
                            prefix_pairs(m0, i as int, j + 1).contains(p) == prefix_pairs(
                                m0,
                                i as int,
                                j as int,
                            ).contains(p) by {
                            if prefix_pairs(m0, i as int, j + 1).contains(p) {
                                let (a, b): (int, int) = choose|a: int, b: int|
                                    #[trigger] entry_pair_ok(m0, i as int, j + 1, a, b, p);
                                if a == i && b == j {
                                    assert(!muted(m0, s, t) ==> !m0.source_map@.contains_key(s));
                                    assert(false);
                                } else {
                                    assert(entry_pair_ok(m0, i as int, j as int, a, b, p));
                                }
                            }
                            if prefix_pairs(m0, i as int, j as int).contains(p) {
                                let (a, b): (int, int) = choose|a: int, b: int|
                                    #[trigger] entry_pair_ok(m0, i as int, j as int, a, b, p);
                                assert(entry_pair_ok(m0, i as int, j + 1, a, b, p));
                            }
                        }
                        assert(prefix_pairs(m0, i as int, j + 1) =~= prefix_pairs(
                            m0,
                            i as int,
                            j as int,
                        ));
                    }
                }
                proof {
                    assert(load_entry_ok(m0, s, t));
                    assert forall|a: int, b: int|
                        #![trigger m0.profile.routes.entries_seq()[a].1.entries_seq()[b]]
                        (0 <= a < m0.profile.routes.entries_seq().len() && 0 <= b
                            < m0.profile.routes.entries_seq()[a].1.entries_seq().len() && (a
                            < i as int || (a == i as int && b < j + 1))) implies load_entry_ok(
                        m0,
                        m0.profile.routes.entries_seq()[a].0,
                        m0.profile.routes.entries_seq()[a].1.entries_seq()[b].0,
                    ) by {
                        if !(a < i as int || (a == i as int && b < j as int)) {
                            assert(a == i as int && b == j as int);
                        }
                    }
                }
                j += 1;
            }
            proof {
                assert forall|p: LinkPair|
                    prefix_pairs(m0, i + 1, 0).contains(p) == prefix_pairs(
                        m0,
                        i as int,
                        mlen as int,
                    ).contains(p) by {
                    if prefix_pairs(m0, i + 1, 0).contains(p) {
                        let (a, b): (int, int) = choose|a: int, b: int|
                            #[trigger] entry_pair_ok(m0, i + 1, 0, a, b, p);
                        assert(entry_pair_ok(m0, i as int, mlen as int, a, b, p));
                    }
                    if prefix_pairs(m0, i as int, mlen as int).contains(p) {
                        let (a, b): (int, int) = choose|a: int, b: int|
                            #[trigger] entry_pair_ok(m0, i as int, mlen as int, a, b, p);
                        assert(entry_pair_ok(m0, i + 1, 0, a, b, p));
                    }
                }
                assert(prefix_pairs(m0, i + 1, 0) =~= prefix_pairs(m0, i as int, mlen as int));
                assert forall|a: int, b: int|
                    #![trigger m0.profile.routes.entries_seq()[a].1.entries_seq()[b]]
                    (0 <= a < m0.profile.routes.entries_seq().len() && 0 <= b
                        < m0.profile.routes.entries_seq()[a].1.entries_seq().len() && (a < i + 1 || (
                    a == i + 1 && b < 0))) implies load_entry_ok(
                    m0,
                    m0.profile.routes.entries_seq()[a].0,
                    m0.profile.routes.entries_seq()[a].1.entries_seq()[b].0,
                ) by {}
            }
            i += 1;
        }
        proof {
            lemma_prefix_full(m0);
            lemma_resolvable_from_processed(m0);
        }
        Ok(())
    }

    /// Changes a target's active mix and re-links every live route
    /// into it: for each routed, unmuted, fully mapped source, the
    /// link of the old mix is removed and the link of the new mix is
    /// created, in route-table order.
    pub fn set_target_mix(&mut self, target: LogicalId, mix: Mix) -> (r: Result<
        (),
        RoutingError,
    >)
        requires
            old(self).wf(),
        ensures
            final(self).wf(),
            ({
                let m0 = *old(self);
                let m1 = *final(self);
                match kind_of(m0, target) {
                    None => r == Err::<(), RoutingError>(RoutingError::NodeNotFound) && m1 == m0,
                    Some(k) => if !is_target_kind(k) {
                        r == Err::<(), RoutingError>(RoutingError::KindMismatch) && m1 == m0
                    } else {
                        &&& r == Ok::<(), RoutingError>(())
                        &&& m1.profile.nodes@.contains_key(target)
                        &&& m1.profile.nodes@[target].mix == mix
                        &&& m1.profile.nodes@[target].kind == m0.profile.nodes@[target].kind
                        &&& m1.profile.nodes@[target].name == m0.profile.nodes@[target].name
                        &&& m1.profile.nodes@[target].match_key == m0.profile.nodes@[
                            target
                        ].match_key
                        &&& m1.profile.nodes@ == m0.profile.nodes@.insert(
                            target,
                            m1.profile.nodes@[target],
                        )
                        &&& m1.profile.routes == m0.profile.routes
                        &&& m1.profile.mutes == m0.profile.mutes
                        &&& m1.source_map == m0.source_map
                        &&& m1.target_filter_map == m0.target_filter_map
                        &&& m1.link_manager.filter_ports == m0.link_manager.filter_ports
                        &&& established(m1) == swap_fold(
                            established(m0),
                            m0,
                            target,
                            target_mix(m0, target),
                            mix,
                            m0.profile.routes.entries_seq().len() as int,
                        )
                        &&& m0.link_manager.commands@.is_prefix_of(m1.link_manager.commands@)
                    },
                }
            }),
    {
        let node_type = match self.get_node_type(target) {
            Some(k) => k,
            None => {
                return Err(RoutingError::NodeNotFound);
            },
        };
        if !node_type.is_target() {
            return Err(RoutingError::KindMismatch);
        }
        let old_mix = match self.get_target_mix(&target) {
            Ok(m) => m,
            Err(e) => {
                return Err(e);
            },
        };
        self.profile.set_node_mix(target, mix);
        let tf_opt = match self.target_filter_map.get(&target) {
            Some(f) => Some(*f),
            None => None,
        };
        let ghost m0 = *old(self);
        let ghost est0 = established(m0);
        let ghost nodes_mid = self.profile.nodes;
        let n: usize = self.profile.routes.len();
        let mut i: usize = 0;
        while i < n
            invariant
                self.wf(),
                m0 == *old(self),
                m0.wf(),
                old_mix == target_mix(m0, target),
                tf_opt matches Some(f) ==> m0.target_filter_map@.contains_key(target) && f
                    == target_filter(m0, target),
                tf_opt is None ==> !m0.target_filter_map@.contains_key(target),
                self.profile.routes == m0.profile.routes,
                self.profile.mutes == m0.profile.mutes,
                self.profile.nodes == nodes_mid,
                self.source_map == m0.source_map,
                self.target_filter_map == m0.target_filter_map,
                self.link_manager.filter_ports == m0.link_manager.filter_ports,
                n == m0.profile.routes.entries_seq().len(),
                0 <= i <= n,
                self.link_manager.established_set() == swap_fold(
                    est0,
                    m0,
                    target,
                    old_mix,
                    mix,
                    i as int,
                ),
                m0.link_manager.commands@.is_prefix_of(self.link_manager.commands@),
            decreases n - i,
        {
            let s = self.profile.routes.key_at(i);
            let routed = self.profile.routes_contains(s, target);
            let not_muted = !self.profile.is_muted(s, target);
            let map_opt = match self.source_map.get(&s) {
                Some(mp) => Some(*mp),
                None => None,
            };
            let ghost cmds_before = self.link_manager.commands@;
            if routed && not_muted && map_opt.is_some() && tf_opt.is_some() {
                let filters = map_opt.unwrap();
                let tfv = tf_opt.unwrap();
                self.link_manager.link_remove_filter_to_filter(filters.for_mix(old_mix), tfv);
                self.link_manager.link_create_filter_to_filter(filters.for_mix(mix), tfv);
                proof {
                    assert(swap_applies(m0, s, target));
                    assert(self.link_manager.established_set() == swap_fold(
                        est0,
                        m0,
                        target,
                        old_mix,
                        mix,
                        i + 1,
                    ));
                }
            } else {
                proof {
                    assert(!swap_applies(m0, s, target));
                    assert(swap_fold(est0, m0, target, old_mix, mix, i + 1) == swap_fold(
                        est0,
                        m0,
                        target,
                        old_mix,
                        mix,
                        i as int,
                    ));
                }
            }
            proof {
                assert(cmds_before.is_prefix_of(self.link_manager.commands@)) by {
                    assert(self.link_manager.commands@.subrange(0, cmds_before.len() as int)
                        =~= cmds_before);
                }
                assert(m0.link_manager.commands@.is_prefix_of(self.link_manager.commands@)) by {
                    assert(self.link_manager.commands@.subrange(
                        0,
                        m0.link_manager.commands@.len() as int,
                    ) =~= m0.link_manager.commands@);
                }
            }
            i += 1;
        }
        Ok(())
    }

    /// Toggles the mute on one (source, target) pair and drives the
    /// link accordingly: muting removes a realized link, unmuting
    /// realizes an enabled route again.  A toggle that matches the
    /// current state is reported as an error and changes nothing.
    pub fn set_source_mute(
        &mut self,
        source: LogicalId,
        target: LogicalId,
        mute: bool,
    ) -> (r: Result<(), RoutingError>)
        requires
            old(self).wf(),
        ensures
            final(self).wf(),
            ({
                let m0 = *old(self);
                let m1 = *final(self);
                match route_validate(m0, source, target) {
                    Some(e) => r == Err::<(), RoutingError>(e) && m1 == m0,
                    None => if mute == muted(m0, source, target) {
                        r == Err::<(), RoutingError>(RoutingError::AlreadySet) && m1 == m0
                    } else {
                        let active = route_on(m0, source, target)
                            && m0.source_map@.contains_key(source)
                            && m0.target_filter_map@.contains_key(target);
                        &&& r == Ok::<(), RoutingError>(())
                        &&& if mute {
                            m1.profile.mutes@.dom() == m0.profile.mutes@.dom().insert(
                                MutePair { source, target },
                            )
                        } else {
                            m1.profile.mutes@.dom() == m0.profile.mutes@.dom().remove(
                                MutePair { source, target },
                            )
                        }
                        &&& m1.profile.routes == m0.profile.routes
                        &&& m1.profile.nodes == m0.profile.nodes
                        &&& m1.source_map == m0.source_map
                        &&& m1.target_filter_map == m0.target_filter_map
                        &&& m1.link_manager.filter_ports == m0.link_manager.filter_ports
                        &&& if active && mute {
                            &&& established(m1) == established(m0).remove(
                                route_pair(m0, source, target),
                            )
                            &&& m1.link_manager.commands@ == m0.link_manager.commands@
                                + spec_remove_commands(
                                m0.link_manager,
                                route_pair(m0, source, target).out_filter,
                                route_pair(m0, source, target).in_filter,
                            )
                        } else if active && !mute {
                            &&& established(m1) == established(m0).insert(
                                route_pair(m0, source, target),
                            )
                            &&& m1.link_manager.commands@ == m0.link_manager.commands@
                                + spec_create_commands(
                                m0.link_manager,
                                route_pair(m0, source, target).out_filter,
                                route_pair(m0, source, target).in_filter,
                            )
                        } else {
                            m1.link_manager == m0.link_manager
                        }
                    },
                }
            }),
    {
        let source_type = match self.get_node_type(source) {
            Some(k) => k,
            None => {
                return Err(RoutingError::NodeNotFound);
            },
        };
        let target_type = match self.get_node_type(target) {
            Some(k) => k,
            None => {
                return Err(RoutingError::NodeNotFound);
            },
        };
        if !source_type.is_source() {
            return Err(RoutingError::KindMismatch);
        }
        if !target_type.is_target() {
            return Err(RoutingError::KindMismatch);
        }
        let currently = self.profile.is_muted(source, target);
        if mute == currently {
            return Err(RoutingError::AlreadySet);
        }
        self.profile.set_muted(source, target, mute);
        let routed = self.profile.routes_contains(source, target);
        let map = self.source_map.get(&source);
        let map = match map {
            Some(m) => Some(*m),
            None => None,
        };
        let tf = self.target_filter_map.get(&target);
        let tf = match tf {
            Some(f) => Some(*f),
            None => None,
        };
        if routed {
            match (map, tf) {
                (Some(filters), Some(target_id)) => {
                    let mix = match self.get_target_mix(&target) {
                        Ok(m) => m,
                        Err(e) => {
                            return Err(e);
                        },
                    };
                    if mute {
                        self.link_manager.link_remove_filter_to_filter(
                            filters.for_mix(mix),
                            target_id,
                        );
                    } else {
                        self.link_manager.link_create_filter_to_filter(
                            filters.for_mix(mix),
                            target_id,
                        );
                    }
                },
                _ => {},
            }
        }
        Ok(())
    }
}

} // verus!
