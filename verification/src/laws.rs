//! The engine's cross-cutting guarantees, stated and proved against
//! the contracts of the routing engine, the link manager and the
//! registry mirror.

use crate::ids::LogicalId;
use crate::linkman::LinkPair;
use crate::registry::{seq_without, store_removed, Store};
use crate::routing::{desired_pair_ok, desired_pairs, established, kind_of, muted, route_on,
    route_pair, route_validate, routes_updated, PipewireManager};
use crate::shared::{is_source_kind, is_target_kind, RoutingError};
use vstd::prelude::*;

verus! {

/// After a route toggle that went through, the routing matrix reads
/// back exactly the value that was set: `routing_route_exists`
/// reports the last `enabled` supplied for the pair.
pub proof fn lemma_set_route_tracks(
    m0: PipewireManager,
    m1: PipewireManager,
    s: LogicalId,
    t: LogicalId,
    enabled: bool,
)
    requires
        routes_updated(m0, m1, s, t, enabled),
    ensures
        route_on(m1, s, t) == enabled,
{
}

/// A route toggle on one pair leaves every other pair of the routing
/// matrix exactly as it was.
pub proof fn lemma_set_route_frame(
    m0: PipewireManager,
    m1: PipewireManager,
    s: LogicalId,
    t: LogicalId,
    enabled: bool,
    s2: LogicalId,
    t2: LogicalId,
)
    requires
        routes_updated(m0, m1, s, t, enabled),
        s2 != s || t2 != t,
    ensures
        route_on(m1, s2, t2) == route_on(m0, s2, t2),
{
    if s2 != s {
        assert(m1.profile.routes@.contains_key(s2) == m0.profile.routes@.contains_key(s2));
    }
}

/// Reloading the routing matrix is idempotent: a second successful
/// `routing_load` realizes exactly the link set the first one left.
pub proof fn lemma_routing_load_idempotent(
    m0: PipewireManager,
    m1: PipewireManager,
    m2: PipewireManager,
)
    requires
        m1.profile == m0.profile,
        m1.source_map == m0.source_map,
        m1.target_filter_map == m0.target_filter_map,
        established(m1) == established(m0).union(desired_pairs(m0)),
        m2.profile == m1.profile,
        m2.source_map == m1.source_map,
        m2.target_filter_map == m1.target_filter_map,
        established(m2) == established(m1).union(desired_pairs(m1)),
    ensures
        established(m2) == established(m1),
{
    assert forall|p: LinkPair|
        desired_pairs(m1).contains(p) == desired_pairs(m0).contains(p) by {
        if desired_pairs(m1).contains(p) {
            let (s, t): (LogicalId, LogicalId) = choose|s: LogicalId, t: LogicalId|
                desired_pair_ok(m1, s, t, p);
            assert(desired_pair_ok(m0, s, t, p));
        }
        if desired_pairs(m0).contains(p) {
            let (s, t): (LogicalId, LogicalId) = choose|s: LogicalId, t: LogicalId|
                desired_pair_ok(m0, s, t, p);
            assert(desired_pair_ok(m1, s, t, p));
        }
    }
    assert(desired_pairs(m1) =~= desired_pairs(m0));
    assert(established(m1).union(desired_pairs(m1)) =~= established(m1));
}

/// Enabling a route and then disabling it returns the realized link
/// set to its prior value, provided the pair was not already realized
/// beforehand (which the engine's own invariant guarantees for a
/// route that was off).
pub proof fn lemma_toggle_round_trip(
    m0: PipewireManager,
    m1: PipewireManager,
    m2: PipewireManager,
    s: LogicalId,
    t: LogicalId,
)
    requires
        m1.profile.nodes == m0.profile.nodes,
        m1.source_map == m0.source_map,
        m1.target_filter_map == m0.target_filter_map,
        established(m1) == established(m0).insert(route_pair(m0, s, t)),
        established(m2) == established(m1).remove(route_pair(m1, s, t)),
        !established(m0).contains(route_pair(m0, s, t)),
    ensures
        established(m2) == established(m0),
{
    assert(route_pair(m1, s, t) == route_pair(m0, s, t));
    assert(established(m2) =~= established(m0));
}

/// The muted variant of the round trip: enabling a muted route
/// realizes nothing, and the subsequent disable leaves the link set
/// where it started.
pub proof fn lemma_toggle_round_trip_muted(
    m0: PipewireManager,
    m1: PipewireManager,
    m2: PipewireManager,
    s: LogicalId,
    t: LogicalId,
)
    requires
        m1.link_manager == m0.link_manager,
        m1.profile.nodes == m0.profile.nodes,
        m1.source_map == m0.source_map,
        m1.target_filter_map == m0.target_filter_map,
        established(m2) == established(m1).remove(route_pair(m1, s, t)),
        !established(m0).contains(route_pair(m0, s, t)),
    ensures
        established(m2) == established(m0),
{
    assert(route_pair(m1, s, t) == route_pair(m0, s, t));
    assert(established(m2) =~= established(m0));
}

/// Enabling a route whose pair is muted creates no link, and the
/// subsequent unmute creates exactly the one link of that pair.
pub proof fn lemma_muted_enable_then_unmute(
    m0: PipewireManager,
    m1: PipewireManager,
    m2: PipewireManager,
    s: LogicalId,
    t: LogicalId,
)
    requires
        muted(m0, s, t),
        m1.link_manager == m0.link_manager,
        m1.profile.nodes == m0.profile.nodes,
        m1.source_map == m0.source_map,
        m1.target_filter_map == m0.target_filter_map,
        established(m2) == established(m1).insert(route_pair(m1, s, t)),
    ensures
        established(m1) == established(m0),
        established(m2) == established(m0).insert(route_pair(m0, s, t)),
{
    assert(route_pair(m1, s, t) == route_pair(m0, s, t));
}

/// Kind validation is total: the engine reports a kind mismatch for
/// exactly the ordered pairs of defined nodes that violate the
/// source-to-target rule.
pub proof fn lemma_kind_mismatch_exact(m: PipewireManager, s: LogicalId, t: LogicalId)
    ensures
        (route_validate(m, s, t) == Some(RoutingError::KindMismatch)) <==> (kind_of(m, s) is Some
            && kind_of(m, t) is Some && !(is_source_kind(kind_of(m, s).unwrap()) && is_target_kind(
            kind_of(m, t).unwrap(),
        ))),
{
}

/// A pruned child list no longer holds the removed id.
proof fn lemma_seq_without_clears(s: Seq<u32>, id: u32)
    ensures
        !seq_without(s, id).contains(id),
    decreases s.len(),
{
    if s.len() > 0 {
        lemma_seq_without_clears(s.drop_last(), id);
        let rest = seq_without(s.drop_last(), id);
        if s.last() != id {
            let t = rest.push(s.last());
            if t.contains(id) {
                let i: int = choose|i: int| 0 <= i < t.len() && t[i] == id;
                if i < rest.len() {
                    assert(rest.contains(id));
                }
            }
        }
    }
}

/// How many of the mirror's collections hold `id` as a key.
pub open spec fn owners_count(s: Store, id: u32) -> int {
    (if s.devices@.contains_key(id) {
        1int
    } else {
        0int
    }) + (if s.device_nodes@.contains_key(id) {
        1int
    } else {
        0int
    }) + (if s.clients@.contains_key(id) {
        1int
    } else {
        0int
    }) + (if s.client_nodes@.contains_key(id) {
        1int
    } else {
        0int
    }) + (if s.links@.contains_key(id) {
        1int
    } else {
        0int
    }) + (if s.factories@.contains_key(id) {
        1int
    } else {
        0int
    })
}

/// After `global_remove(id)` on a mirror where the id is owned by at
/// most one collection (which a host that assigns globally unique ids
/// guarantees), no collection resolves the id any more, the removed
/// node's parent no longer lists it, and an id owned by no collection
/// is cleared from every node's port indices.
pub proof fn lemma_remove_clears_id(pre: Store, post: Store, id: u32)
    requires
        store_removed(pre, post, id),
        owners_count(pre, id) <= 1,
    ensures
        !post.devices@.contains_key(id),
        !post.device_nodes@.contains_key(id),
        !post.clients@.contains_key(id),
        !post.client_nodes@.contains_key(id),
        !post.links@.contains_key(id),
        !post.factories@.contains_key(id),
        pre.device_nodes@.contains_key(id) && pre.devices@.contains_key(
            pre.device_nodes@[id].parent_id,
        ) ==> !post.devices@[pre.device_nodes@[id].parent_id].nodes@.contains(id),
        pre.client_nodes@.contains_key(id) && pre.clients@.contains_key(
            pre.client_nodes@[id].parent_id,
        ) ==> !post.clients@[pre.client_nodes@[id].parent_id].nodes@.contains(id),
        owners_count(pre, id) == 0 ==> forall|k: u32| #[trigger]
            post.device_nodes@.contains_key(k) ==> !post.device_nodes@[k].in_ports@.contains_key(id)
                && !post.device_nodes@[k].out_ports@.contains_key(id),
        owners_count(pre, id) == 0 ==> forall|k: u32| #[trigger]
            post.client_nodes@.contains_key(k) ==> !post.client_nodes@[k].in_ports@.contains_key(id)
                && !post.client_nodes@[k].out_ports@.contains_key(id),
{
    if pre.device_nodes@.contains_key(id) && !pre.devices@.contains_key(id) {
        let parent = pre.device_nodes@[id].parent_id;
        if pre.devices@.contains_key(parent) {
            lemma_seq_without_clears(pre.devices@[parent].nodes@, id);
        }
    }
    if pre.client_nodes@.contains_key(id) && !pre.devices@.contains_key(id)
        && !pre.device_nodes@.contains_key(id) && !pre.clients@.contains_key(id) {
        let parent = pre.client_nodes@[id].parent_id;
        if pre.clients@.contains_key(parent) {
            lemma_seq_without_clears(pre.clients@[parent].nodes@, id);
        }
    }
}

} // verus!
