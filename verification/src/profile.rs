//! The profile model: the persisted routing matrix and per-node
//! attributes.  Pure data with accessors; only the manager mutates it.

use crate::amap::{AssocMap, MapKey};
use crate::ids::LogicalId;
use crate::shared::{Mix, NodeDef};
use vstd::prelude::*;

verus! {

/// An ordered (source, target) pair, the unit of mute state.
#[derive(Clone, Copy, PartialEq, Eq, Structural, Debug)]
pub struct MutePair {
    pub source: LogicalId,
    pub target: LogicalId,
}

impl MapKey for MutePair {
    fn key_eq(&self, other: &Self) -> (r: bool)
        ensures
            r == (*self == *other),
    {
        self.source.value == other.source.value && self.target.value == other.target.value
    }
}

/// The persisted profile: the routing matrix, the node definitions and
/// the mute state.
pub struct Profile {
    /// `routes[source]` is the set of targets routing is requested to;
    /// a missing key means the empty set.
    pub routes: AssocMap<LogicalId, AssocMap<LogicalId, ()>>,
    /// Every logical node's definition, including each target's active
    /// mix.
    pub nodes: AssocMap<LogicalId, NodeDef>,
    /// The (source, target) pairs currently muted.
    pub mutes: AssocMap<MutePair, ()>,
}

/// The set of targets the profile routes `s` into; a missing entry is
/// the empty set.
pub open spec fn route_set(p: Profile, s: LogicalId) -> Set<LogicalId> {
    if p.routes@.contains_key(s) {
        p.routes@[s]@.dom()
    } else {
        Set::empty()
    }
}

impl Profile {
    /// Every table has distinct keys, inner target sets included.
    pub open spec fn wf(&self) -> bool {
        &&& self.routes.wf()
        &&& forall|s: LogicalId| #[trigger] self.routes@.contains_key(s) ==> self.routes@[s].wf()
        &&& self.nodes.wf()
        &&& self.mutes.wf()
    }

    /// An empty profile.
    pub fn new() -> (r: Profile)
        ensures
            r.wf(),
            r.routes@ == Map::<LogicalId, AssocMap<LogicalId, ()>>::empty(),
            r.nodes@ == Map::<LogicalId, NodeDef>::empty(),
            r.mutes@.dom() == Set::<MutePair>::empty(),
    {
        let r = Profile { routes: AssocMap::new(), nodes: AssocMap::new(), mutes: AssocMap::new() };
        proof {
            assert(r.mutes@.dom() =~= Set::<MutePair>::empty());
        }
        r
    }

    /// Whether routing from `s` to `t` is requested.
    pub fn routes_contains(&self, s: LogicalId, t: LogicalId) -> (r: bool)
        requires
            self.wf(),
        ensures
            r == route_set(*self, s).contains(t),
    {
        match self.routes.get(&s) {
            Some(targets) => targets.contains_key(&t),
            None => false,
        }
    }

    /// Whether the table has an entry for `s` at all.
    pub fn routes_has_entry(&self, s: LogicalId) -> (r: bool)
        ensures
            r == self.routes@.contains_key(s),
    {
        self.routes.contains_key(&s)
    }

    /// Requests routing from `s` to `t`, creating the entry when it is
    /// missing.
    pub fn insert_route(&mut self, s: LogicalId, t: LogicalId)
        requires
            old(self).wf(),
        ensures
            final(self).wf(),
            final(self).routes@.contains_key(s),
            final(self).routes@[s]@.dom() == route_set(*old(self), s).insert(t),
            forall|s2: LogicalId|
                s2 != s ==> #[trigger] final(self).routes@.contains_key(s2) == old(
                    self,
                ).routes@.contains_key(s2) && (old(self).routes@.contains_key(s2)
                    ==> final(self).routes@[s2] == old(self).routes@[s2]),
            final(self).nodes == old(self).nodes,
            final(self).mutes == old(self).mutes,
    {
        let mut targets: AssocMap<LogicalId, ()> = match self.routes.remove(&s) {
            Some(m) => m,
            None => AssocMap::new(),
        };
        proof {
            if !old(self).routes@.contains_key(s) {
                assert(targets@.dom() =~= route_set(*old(self), s));
            }
        }
        targets.insert(t, ());
        proof {
            assert(targets@.dom() =~= route_set(*old(self), s).insert(t));
        }
        self.routes.insert(s, targets);
        proof {
            assert forall|s2: LogicalId|
                s2 != s implies #[trigger] final(self).routes@.contains_key(s2) == old(
                self,
            ).routes@.contains_key(s2) && (old(self).routes@.contains_key(s2)
                ==> final(self).routes@[s2] == old(self).routes@[s2]) by {}
        }
    }

    /// Withdraws the routing request from `s` to `t`; a missing entry
    /// stays missing.
    pub fn remove_route(&mut self, s: LogicalId, t: LogicalId)
        requires
            old(self).wf(),
        ensures
            final(self).wf(),
            final(self).routes@.contains_key(s) == old(self).routes@.contains_key(s),
            old(self).routes@.contains_key(s) ==> final(self).routes@[s]@.dom() == route_set(
                *old(self),
                s,
            ).remove(t),
            forall|s2: LogicalId|
                s2 != s ==> #[trigger] final(self).routes@.contains_key(s2) == old(
                    self,
                ).routes@.contains_key(s2) && (old(self).routes@.contains_key(s2)
                    ==> final(self).routes@[s2] == old(self).routes@[s2]),
            final(self).nodes == old(self).nodes,
            final(self).mutes == old(self).mutes,
    {
        match self.routes.remove(&s) {
            Some(mut targets) => {
                let _ = targets.remove(&t);
                proof {
                    assert(targets@.dom() =~= route_set(*old(self), s).remove(t));
                }
                self.routes.insert(s, targets);
                proof {
                    assert forall|s2: LogicalId|
                        s2 != s implies #[trigger] final(self).routes@.contains_key(s2) == old(
                        self,
                    ).routes@.contains_key(s2) && (old(self).routes@.contains_key(s2)
                        ==> final(self).routes@[s2] == old(self).routes@[s2]) by {}
                }
            },
            None => {
                proof {
                    assert(self.routes@ =~= old(self).routes@.remove(s));
                }
            },
        }
    }

    /// Whether the pair is muted.
    pub fn is_muted(&self, s: LogicalId, t: LogicalId) -> (r: bool)
        ensures
            r == self.mutes@.dom().contains(MutePair { source: s, target: t }),
    {
        self.mutes.contains_key(&(MutePair { source: s, target: t }))
    }

    /// Sets or clears the mute on one pair.
    pub fn set_muted(&mut self, s: LogicalId, t: LogicalId, muted: bool)
        requires
            old(self).wf(),
        ensures
            final(self).wf(),
            muted ==> final(self).mutes@.dom() == old(self).mutes@.dom().insert(
                MutePair { source: s, target: t },
            ),
            !muted ==> final(self).mutes@.dom() == old(self).mutes@.dom().remove(
                MutePair { source: s, target: t },
            ),
            final(self).routes == old(self).routes,
            final(self).nodes == old(self).nodes,
    {
        if muted {
            self.mutes.insert(MutePair { source: s, target: t }, ());
            proof {
                assert(self.mutes@.dom() =~= old(self).mutes@.dom().insert(
                    MutePair { source: s, target: t },
                ));
            }
        } else {
            let _ = self.mutes.remove(&(MutePair { source: s, target: t }));
            proof {
                assert(self.mutes@.dom() =~= old(self).mutes@.dom().remove(
                    MutePair { source: s, target: t },
                ));
            }
        }
    }

    /// Records a node definition.
    pub fn define_node(&mut self, id: LogicalId, def: NodeDef)
        requires
            old(self).wf(),
        ensures
            final(self).wf(),
            final(self).nodes@ == old(self).nodes@.insert(id, def),
            final(self).routes == old(self).routes,
            final(self).mutes == old(self).mutes,
    {
        self.nodes.insert(id, def);
    }

    /// Changes the active mix of a defined node.
    pub fn set_node_mix(&mut self, id: LogicalId, mix: Mix)
        requires
            old(self).wf(),
            old(self).nodes@.contains_key(id),
        ensures
            final(self).wf(),
            final(self).nodes@.contains_key(id),
            final(self).nodes@[id].kind == old(self).nodes@[id].kind,
            final(self).nodes@[id].name == old(self).nodes@[id].name,
            final(self).nodes@[id].match_key == old(self).nodes@[id].match_key,
            final(self).nodes@[id].mix == mix,
            final(self).nodes@ == old(self).nodes@.insert(id, final(self).nodes@[id]),
            final(self).routes == old(self).routes,
            final(self).mutes == old(self).mutes,
    {
        match self.nodes.remove(&id) {
            Some(mut def) => {
                def.mix = mix;
                self.nodes.insert(id, def);
                proof {
                    assert(self.nodes@ =~= old(self).nodes@.insert(id, self.nodes@[id]));
                }
            },
            None => {},
        }
    }
}

} // verus!
