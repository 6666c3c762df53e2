//! The link manager: idempotent creation and removal of filter-to-filter
//! links, deduplicated by ordered endpoint pair.
//!
//! A link between two filters is realized as one host link per matching
//! channel: an output port of the out-filter is paired with an input port
//! of the in-filter when both carry the same channel label and agree on
//! being monitor ports.  The manager records which ordered pairs it
//! believes are up in `established`, and queues the concrete port-level
//! host commands in `commands`.

use crate::amap::{AssocMap, MapKey};
use crate::registry::RegistryPort;
use crate::strutil::str_eq;
use vstd::prelude::*;

verus! {

/// An ordered pair of daemon-owned filter nodes: link origin and
/// destination.
#[derive(Clone, Copy, PartialEq, Eq, Structural, Debug)]
pub struct LinkPair {
    pub out_filter: u32,
    pub in_filter: u32,
}

impl MapKey for LinkPair {
    fn key_eq(&self, other: &Self) -> (r: bool)
        ensures
            r == (*self == *other),
    {
        self.out_filter == other.out_filter && self.in_filter == other.in_filter
    }
}

/// A command bound for the host graph's command surface.
#[derive(Clone, PartialEq, Eq, Debug)]
pub enum HostCommand {
    /// Create a port-to-port link.
    CreateLink { output_node: u32, output_port: u32, input_node: u32, input_port: u32 },
    /// Remove a port-to-port link.
    RemoveLink { output_node: u32, output_port: u32, input_node: u32, input_port: u32 },
}

/// The port inventory of one daemon-owned filter node.
pub struct FilterPorts {
    pub outputs: Vec<RegistryPort>,
    pub inputs: Vec<RegistryPort>,
}

/// Channel pairing rule: equal channel label, and monitor ports only
/// pair with monitor ports.
pub open spec fn ports_match(o: RegistryPort, i: RegistryPort) -> bool {
    o.channel@ == i.channel@ && o.is_monitor == i.is_monitor
}

/// The (out port, in port) id pairs one out-port forms against a list
/// of in-ports.
pub open spec fn pairs_with(o: RegistryPort, ins: Seq<RegistryPort>) -> Seq<(u32, u32)>
    decreases ins.len(),
{
    if ins.len() == 0 {
        Seq::empty()
    } else {
        let rest = pairs_with(o, ins.drop_last());
        if ports_match(o, ins.last()) {
            rest.push((o.global_id, ins.last().global_id))
        } else {
            rest
        }
    }
}

/// Every matching (out port, in port) id pair between two port lists,
/// in list order; ports without a counterpart are skipped.
pub open spec fn channel_pairs(outs: Seq<RegistryPort>, ins: Seq<RegistryPort>) -> Seq<(u32, u32)>
    decreases outs.len(),
{
    if outs.len() == 0 {
        Seq::empty()
    } else {
        channel_pairs(outs.drop_last(), ins) + pairs_with(outs.last(), ins)
    }
}

/// The create commands for a pair list between two filters.
pub open spec fn create_cmds_of(pairs: Seq<(u32, u32)>, out_f: u32, in_f: u32) -> Seq<HostCommand>
    decreases pairs.len(),
{
    if pairs.len() == 0 {
        Seq::empty()
    } else {
        create_cmds_of(pairs.drop_last(), out_f, in_f).push(
            HostCommand::CreateLink {
                output_node: out_f,
                output_port: pairs.last().0,
                input_node: in_f,
                input_port: pairs.last().1,
            },
        )
    }
}

/// The remove commands for a pair list between two filters.
pub open spec fn remove_cmds_of(pairs: Seq<(u32, u32)>, out_f: u32, in_f: u32) -> Seq<HostCommand>
    decreases pairs.len(),
{
    if pairs.len() == 0 {
        Seq::empty()
    } else {
        remove_cmds_of(pairs.drop_last(), out_f, in_f).push(
            HostCommand::RemoveLink {
                output_node: out_f,
                output_port: pairs.last().0,
                input_node: in_f,
                input_port: pairs.last().1,
            },
        )
    }
}

/// Computes every matching channel pair between two port inventories.
pub fn compute_channel_pairs(outs: &Vec<RegistryPort>, ins: &Vec<RegistryPort>) -> (r: Vec<
    (u32, u32),
>)
    ensures
        r@ == channel_pairs(outs@, ins@),
{
    let mut acc: Vec<(u32, u32)> = Vec::new();
    let n: usize = outs.len();
    let mut i: usize = 0;
    proof {
        assert(outs@.subrange(0, 0) =~= Seq::<RegistryPort>::empty());
    }
    while i < n
        invariant
            n == outs@.len(),
            0 <= i <= n,
            acc@ == channel_pairs(outs@.subrange(0, i as int), ins@),
        decreases n - i,
    {
        let m: usize = ins.len();
        let mut j: usize = 0;
        proof {
            assert(ins@.subrange(0, 0) =~= Seq::<RegistryPort>::empty());
        }
        while j < m
            invariant
                n == outs@.len(),
                m == ins@.len(),
                0 <= i < n,
                0 <= j <= m,
                acc@ == channel_pairs(outs@.subrange(0, i as int), ins@) + pairs_with(
                    outs@[i as int],
                    ins@.subrange(0, j as int),
                ),
            decreases m - j,
        {
            let hit = str_eq(outs[i].channel.as_str(), ins[j].channel.as_str()) && outs[i].is_monitor
                == ins[j].is_monitor;
            proof {
                let pre = ins@.subrange(0, j as int);
                let ext = ins@.subrange(0, j + 1);
                assert(ext.drop_last() =~= pre);
                assert(ext.last() == ins@[j as int]);
            }
            if hit {
                acc.push((outs[i].global_id, ins[j].global_id));
            }
            j += 1;
        }
        proof {
            assert(ins@.subrange(0, m as int) =~= ins@);
            let pre = outs@.subrange(0, i as int);
            let ext = outs@.subrange(0, i + 1);
            assert(ext.drop_last() =~= pre);
            assert(ext.last() == outs@[i as int]);
        }
        i += 1;
    }
    proof {
        assert(outs@.subrange(0, n as int) =~= outs@);
    }
    acc
}

/// The link manager: filter port inventories, the set of realized
/// ordered filter pairs, and the queued host commands.
pub struct LinkManager {
    pub filter_ports: AssocMap<u32, FilterPorts>,
    pub established: AssocMap<LinkPair, ()>,
    pub commands: Vec<HostCommand>,
}

/// The out-port inventory the manager knows for a filter.
pub open spec fn out_ports_of(lm: LinkManager, f: u32) -> Seq<RegistryPort> {
    if lm.filter_ports@.contains_key(f) {
        lm.filter_ports@[f].outputs@
    } else {
        Seq::empty()
    }
}

/// The in-port inventory the manager knows for a filter.
pub open spec fn in_ports_of(lm: LinkManager, f: u32) -> Seq<RegistryPort> {
    if lm.filter_ports@.contains_key(f) {
        lm.filter_ports@[f].inputs@
    } else {
        Seq::empty()
    }
}

/// The commands a create call queues: nothing when the pair is already
/// up, else one create per matching channel.
pub open spec fn spec_create_commands(lm: LinkManager, out_f: u32, in_f: u32) -> Seq<HostCommand> {
    if lm.established@.dom().contains(LinkPair { out_filter: out_f, in_filter: in_f }) {
        Seq::empty()
    } else {
        create_cmds_of(channel_pairs(out_ports_of(lm, out_f), in_ports_of(lm, in_f)), out_f, in_f)
    }
}

/// The commands a remove call queues: nothing when the pair is not up,
/// else one remove per matching channel.
pub open spec fn spec_remove_commands(lm: LinkManager, out_f: u32, in_f: u32) -> Seq<HostCommand> {
    if lm.established@.dom().contains(LinkPair { out_filter: out_f, in_filter: in_f }) {
        remove_cmds_of(channel_pairs(out_ports_of(lm, out_f), in_ports_of(lm, in_f)), out_f, in_f)
    } else {
        Seq::empty()
    }
}

impl LinkManager {
    /// Both internal tables have distinct keys.
    pub open spec fn wf(&self) -> bool {
        self.filter_ports.wf() && self.established.wf()
    }

    /// The ordered filter pairs the manager believes are realized.
    pub open spec fn established_set(&self) -> Set<LinkPair> {
        self.established@.dom()
    }

    /// A manager with no filters, no links and no queued commands.
    pub fn new() -> (r: LinkManager)
        ensures
            r.wf(),
            r.filter_ports@ == Map::<u32, FilterPorts>::empty(),
            r.established_set() == Set::<LinkPair>::empty(),
            r.commands@ == Seq::<HostCommand>::empty(),
    {
        let r = LinkManager {
            filter_ports: AssocMap::new(),
            established: AssocMap::new(),
            commands: Vec::new(),
        };
        proof {
            assert(r.established@.dom() =~= Set::<LinkPair>::empty());
        }
        r
    }

    /// Records the port inventory of a daemon-owned filter node.
    pub fn register_filter_ports(&mut self, filter: u32, ports: FilterPorts)
        requires
            old(self).wf(),
        ensures
            final(self).wf(),
            final(self).filter_ports@ == old(self).filter_ports@.insert(filter, ports),
            final(self).established == old(self).established,
            final(self).commands == old(self).commands,
    {
        self.filter_ports.insert(filter, ports);
    }

    /// Realizes the ordered pair `(out_f, in_f)`: a no-op when already
    /// up, else one host create per matching channel, and the pair is
    /// recorded.
    pub fn link_create_filter_to_filter(&mut self, out_f: u32, in_f: u32)
        requires
            old(self).wf(),
        ensures
            final(self).wf(),
            final(self).established_set() == old(self).established_set().insert(LinkPair { out_filter: out_f, in_filter: in_f }),
            final(self).commands@ == old(self).commands@ + spec_create_commands(
                *old(self),
                out_f,
                in_f,
            ),
            final(self).filter_ports == old(self).filter_ports,
    {
        if self.established.contains_key(&(LinkPair { out_filter: out_f, in_filter: in_f })) {
            proof {
                assert(final(self).established_set() =~= old(self).established_set().insert(
                    LinkPair { out_filter: out_f, in_filter: in_f },
                ));
                assert(final(self).commands@ =~= old(self).commands@ + spec_create_commands(
                    *old(self),
                    out_f,
                    in_f,
                ));
            }
            return ;
        }
        let empty_outs: Vec<RegistryPort> = Vec::new();
        let empty_ins: Vec<RegistryPort> = Vec::new();
        let outs: &Vec<RegistryPort> = match self.filter_ports.get(&out_f) {
            Some(fp) => &fp.outputs,
            None => &empty_outs,
        };
        let ins: &Vec<RegistryPort> = match self.filter_ports.get(&in_f) {
            Some(fp) => &fp.inputs,
            None => &empty_ins,
        };
        let pairs = compute_channel_pairs(outs, ins);
        let ghost all = channel_pairs(out_ports_of(*old(self), out_f), in_ports_of(*old(self), in_f));
        let n: usize = pairs.len();
        let mut i: usize = 0;
        proof {
            assert(all.subrange(0, 0) =~= Seq::<(u32, u32)>::empty());
        }
        while i < n
            invariant
                n == pairs@.len(),
                0 <= i <= n,
                pairs@ == all,
                self.commands@ == old(self).commands@ + create_cmds_of(
                    all.subrange(0, i as int),
                    out_f,
                    in_f,
                ),
                self.filter_ports == old(self).filter_ports,
                self.established == old(self).established,
            decreases n - i,
        {
            let p = pairs[i];
            self.commands.push(
                HostCommand::CreateLink {
                    output_node: out_f,
                    output_port: p.0,
                    input_node: in_f,
                    input_port: p.1,
                },
            );
            proof {
                let pre = all.subrange(0, i as int);
                let ext = all.subrange(0, i + 1);
                assert(ext.drop_last() =~= pre);
                assert(ext.last() == all[i as int]);
            }
            i += 1;
        }
        proof {
            assert(all.subrange(0, n as int) =~= all);
        }
        self.established.insert(LinkPair { out_filter: out_f, in_filter: in_f }, ());
        proof {
            assert(final(self).established_set() =~= old(self).established_set().insert(
                LinkPair { out_filter: out_f, in_filter: in_f },
            ));
        }
    }

    /// Tears the ordered pair `(out_f, in_f)` down: a no-op when the
    /// pair is not up, else one host remove per matching channel, and
    /// the pair is evicted.
    pub fn link_remove_filter_to_filter(&mut self, out_f: u32, in_f: u32)
        requires
            old(self).wf(),
        ensures
            final(self).wf(),
            final(self).established_set() == old(self).established_set().remove(LinkPair { out_filter: out_f, in_filter: in_f }),
            final(self).commands@ == old(self).commands@ + spec_remove_commands(
                *old(self),
                out_f,
                in_f,
            ),
            final(self).filter_ports == old(self).filter_ports,
    {
        if !self.established.contains_key(&(LinkPair { out_filter: out_f, in_filter: in_f })) {
            proof {
                assert(final(self).established_set() =~= old(self).established_set().remove(
                    LinkPair { out_filter: out_f, in_filter: in_f },
                ));
                assert(final(self).commands@ =~= old(self).commands@ + spec_remove_commands(
                    *old(self),
                    out_f,
                    in_f,
                ));
            }
            return ;
        }
        let empty_outs: Vec<RegistryPort> = Vec::new();
        let empty_ins: Vec<RegistryPort> = Vec::new();
        let outs: &Vec<RegistryPort> = match self.filter_ports.get(&out_f) {
            Some(fp) => &fp.outputs,
            None => &empty_outs,
        };
        let ins: &Vec<RegistryPort> = match self.filter_ports.get(&in_f) {
            Some(fp) => &fp.inputs,
            None => &empty_ins,
        };
        let pairs = compute_channel_pairs(outs, ins);
        let ghost all = channel_pairs(out_ports_of(*old(self), out_f), in_ports_of(*old(self), in_f));
        let n: usize = pairs.len();
        let mut i: usize = 0;
        proof {
            assert(all.subrange(0, 0) =~= Seq::<(u32, u32)>::empty());
        }
        while i < n
            invariant
                n == pairs@.len(),
                0 <= i <= n,
                pairs@ == all,
                self.commands@ == old(self).commands@ + remove_cmds_of(
                    all.subrange(0, i as int),
                    out_f,
                    in_f,
                ),
                self.filter_ports == old(self).filter_ports,
                self.established == old(self).established,
            decreases n - i,
        {
            let p = pairs[i];
            self.commands.push(
                HostCommand::RemoveLink {
                    output_node: out_f,
                    output_port: p.0,
                    input_node: in_f,
                    input_port: p.1,
                },
            );
            proof {
                let pre = all.subrange(0, i as int);
                let ext = all.subrange(0, i + 1);
                assert(ext.drop_last() =~= pre);
                assert(ext.last() == all[i as int]);
            }
            i += 1;
        }
        proof {
            assert(all.subrange(0, n as int) =~= all);
        }
        let _ = self.established.remove(&(LinkPair { out_filter: out_f, in_filter: in_f }));
        proof {
            assert(final(self).established_set() =~= old(self).established_set().remove(
                LinkPair { out_filter: out_f, in_filter: in_f },
            ));
        }
    }
}

} // verus!
