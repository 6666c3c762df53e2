//! The registry mirror: a locally cached shadow of the host audio graph.
//!
//! The host delivers `global` additions (an id, an object type and a
//! string-to-string property dictionary) and `global_remove` deletions.
//! Each entity is parsed by a fallible constructor; malformed properties
//! cause the observation to be dropped silently.

use crate::amap::{lemma_seq_index_view, seq_as_map, seq_contains_key, seq_unique, AssocMap};
use crate::shared::Direction;
use crate::strutil::{parse_bool_or_false, parse_u32, parse_u32_spec, str_eq};
use vstd::prelude::*;
use vstd::string::StringExecFns;
use vstd::string::StrSliceExecFns;

verus! {

/// A string-to-string property dictionary, as delivered with a host
/// `global` event.
pub struct Props {
    entries: Vec<(String, String)>,
}

/// The value stored under the first entry whose key reads `key`.
pub open spec fn spec_lookup(s: Seq<(String, String)>, key: Seq<char>) -> Option<Seq<char>>
    decreases s.len(),
{
    if s.len() == 0 {
        None
    } else if s[0].0@ == key {
        Some(s[0].1@)
    } else {
        spec_lookup(s.drop_first(), key)
    }
}

impl Props {
    /// The entry sequence, in insertion order.
    pub closed spec fn entries_seq(&self) -> Seq<(String, String)> {
        self.entries@
    }

    /// The value the dictionary holds for `key`, if any.
    pub open spec fn lookup(&self, key: Seq<char>) -> Option<Seq<char>> {
        spec_lookup(self.entries_seq(), key)
    }

    /// An empty dictionary.
    pub fn new() -> (r: Props)
        ensures
            r.entries_seq() == Seq::<(String, String)>::empty(),
    {
        Props { entries: Vec::new() }
    }

    /// Appends one key/value pair.
    pub fn add(&mut self, key: String, value: String)
        ensures
            final(self).entries_seq() == old(self).entries_seq().push((key, value)),
    {
        self.entries.push((key, value));
    }

    /// Looks `key` up, first match wins.
    pub fn get(&self, key: &str) -> (r: Option<&String>)
        ensures
            match r {
                Some(v) => self.lookup(key@) == Some(v@),
                None => self.lookup(key@) is None,
            },
    {
        let n: usize = self.entries.len();
        let mut i: usize = 0;
        proof {
            assert(self.entries_seq().skip(0) =~= self.entries_seq());
        }
        while i < n
            invariant
                n == self.entries_seq().len(),
                0 <= i <= n,
                spec_lookup(self.entries_seq().skip(i as int), key@) == self.lookup(key@),
            decreases n - i,
        {
            let hit = str_eq(self.entries[i].0.as_str(), key);
            proof {
                let tail = self.entries_seq().skip(i as int);
                assert(tail[0] == self.entries_seq()[i as int]);
                assert(tail.drop_first() =~= self.entries_seq().skip(i + 1));
            }
            if hit {
                return Some(&self.entries[i].1);
            }
            i += 1;
        }
        None
    }
}

/// Fetches `key` as an owned string.
fn get_owned(props: &Props, key: &str) -> (r: Option<String>)
    ensures
        (r is Some) == (props.lookup(key@) is Some),
        r is Some ==> r.unwrap()@ == props.lookup(key@).unwrap(),
{
    match props.get(key) {
        Some(s) => Some(s.clone()),
        None => None,
    }
}

/// The numeric reading of `key`: present and parseable as decimal `u32`.
pub open spec fn spec_get_u32(p: &Props, key: Seq<char>) -> Option<u32> {
    match p.lookup(key) {
        Some(v) => parse_u32_spec(v),
        None => None,
    }
}

/// Fetches `key` and parses it as a decimal `u32`.
fn get_u32(props: &Props, key: &str) -> (r: Option<u32>)
    ensures
        r == spec_get_u32(props, key@),
{
    match props.get(key) {
        Some(s) => parse_u32(s.as_str()),
        None => None,
    }
}

/// The host object types the mirror can be told about.
#[derive(Debug)]
pub enum ObjectType {
    Client,
    ClientEndpoint,
    ClientNode,
    ClientSession,
    Core,
    Device,
    Endpoint,
    EndpointLink,
    EndpointStream,
    Factory,
    Link,
    Metadata,
    Module,
    Node,
    Port,
    Profiler,
    Registry,
    Session,
    Other(String),
}

/// The object type a known interface string denotes, if any.
pub open spec fn spec_known_object_type(s: Seq<char>) -> Option<ObjectType> {
    if s == "PipeWire:Interface:Client"@ {
        Some(ObjectType::Client)
    } else if s == "PipeWire:Interface:ClientEndpoint"@ {
        Some(ObjectType::ClientEndpoint)
    } else if s == "PipeWire:Interface:ClientNode"@ {
        Some(ObjectType::ClientNode)
    } else if s == "PipeWire:Interface:ClientSession"@ {
        Some(ObjectType::ClientSession)
    } else if s == "PipeWire:Interface:Core"@ {
        Some(ObjectType::Core)
    } else if s == "PipeWire:Interface:Device"@ {
        Some(ObjectType::Device)
    } else if s == "PipeWire:Interface:Endpoint"@ {
        Some(ObjectType::Endpoint)
    } else if s == "PipeWire:Interface:EndpointLink"@ {
        Some(ObjectType::EndpointLink)
    } else if s == "PipeWire:Interface:EndpointStream"@ {
        Some(ObjectType::EndpointStream)
    } else if s == "PipeWire:Interface:Factory"@ {
        Some(ObjectType::Factory)
    } else if s == "PipeWire:Interface:Link"@ {
        Some(ObjectType::Link)
    } else if s == "PipeWire:Interface:Metadata"@ {
        Some(ObjectType::Metadata)
    } else if s == "PipeWire:Interface:Module"@ {
        Some(ObjectType::Module)
    } else if s == "PipeWire:Interface:Node"@ {
        Some(ObjectType::Node)
    } else if s == "PipeWire:Interface:Port"@ {
        Some(ObjectType::Port)
    } else if s == "PipeWire:Interface:Profiler"@ {
        Some(ObjectType::Profiler)
    } else if s == "PipeWire:Interface:Registry"@ {
        Some(ObjectType::Registry)
    } else if s == "PipeWire:Interface:Session"@ {
        Some(ObjectType::Session)
    } else {
        None
    }
}

/// Maps a host interface string to its [`ObjectType`]; unknown strings
/// are preserved under [`ObjectType::Other`].
pub fn to_object_type(input: &str) -> (r: ObjectType)
    ensures
        match spec_known_object_type(input@) {
            Some(t) => r == t,
            None => r matches ObjectType::Other(o) && o@ == input@,
        },
{
    if str_eq(input, "PipeWire:Interface:Client") {
        ObjectType::Client
    } else if str_eq(input, "PipeWire:Interface:ClientEndpoint") {
        ObjectType::ClientEndpoint
    } else if str_eq(input, "PipeWire:Interface:ClientNode") {
        ObjectType::ClientNode
    } else if str_eq(input, "PipeWire:Interface:ClientSession") {
        ObjectType::ClientSession
    } else if str_eq(input, "PipeWire:Interface:Core") {
        ObjectType::Core
    } else if str_eq(input, "PipeWire:Interface:Device") {
        ObjectType::Device
    } else if str_eq(input, "PipeWire:Interface:Endpoint") {
        ObjectType::Endpoint
    } else if str_eq(input, "PipeWire:Interface:EndpointLink") {
        ObjectType::EndpointLink
    } else if str_eq(input, "PipeWire:Interface:EndpointStream") {
        ObjectType::EndpointStream
    } else if str_eq(input, "PipeWire:Interface:Factory") {
        ObjectType::Factory
    } else if str_eq(input, "PipeWire:Interface:Link") {
        ObjectType::Link
    } else if str_eq(input, "PipeWire:Interface:Metadata") {
        ObjectType::Metadata
    } else if str_eq(input, "PipeWire:Interface:Module") {
        ObjectType::Module
    } else if str_eq(input, "PipeWire:Interface:Node") {
        ObjectType::Node
    } else if str_eq(input, "PipeWire:Interface:Port") {
        ObjectType::Port
    } else if str_eq(input, "PipeWire:Interface:Profiler") {
        ObjectType::Profiler
    } else if str_eq(input, "PipeWire:Interface:Registry") {
        ObjectType::Registry
    } else if str_eq(input, "PipeWire:Interface:Session") {
        ObjectType::Session
    } else {
        proof {
            assert(spec_known_object_type(input@) is None);
        }
        let o = String::from_str(input);
        proof {
            assert(o@ == input@);
        }
        ObjectType::Other(o)
    }
}

/// The internal error kinds of entity parsing, one per required
/// property; a parse failure drops the observation, it is never
/// surfaced to clients.
#[derive(Clone, Copy, PartialEq, Eq, Structural, Debug)]
pub enum RegistryParseError {
    MissingDeviceId,
    MissingModuleId,
    MissingFactoryName,
    MissingFactoryType,
    MissingFactoryVersion,
    MissingClientId,
    MissingNodeName,
    MissingApplicationName,
    MissingProtocol,
    MissingProcessId,
    MissingUserId,
    MissingGroupId,
    MissingAccess,
    MissingLinkInputNode,
    MissingLinkInputPort,
    MissingLinkOutputNode,
    MissingLinkOutputPort,
}

/// An optional owned string agreeing with an optional property value.
pub open spec fn opt_matches(o: Option<String>, l: Option<Seq<char>>) -> bool {
    &&& (o is Some) == (l is Some)
    &&& (o is Some ==> o.unwrap()@ == l.unwrap())
}

/// A device observed in the host registry.
pub struct RegistryDevice {
    pub nickname: Option<String>,
    pub description: Option<String>,
    pub name: Option<String>,
    pub nodes: Vec<u32>,
}

/// `d` carries exactly what the props say about a device, with no
/// child nodes yet.
pub open spec fn device_matches_props(d: RegistryDevice, p: &Props) -> bool {
    &&& opt_matches(d.nickname, p.lookup("device.nick"@))
    &&& opt_matches(d.description, p.lookup("device.description"@))
    &&& opt_matches(d.name, p.lookup("device.name"@))
    &&& d.nodes@ == Seq::<u32>::empty()
}

impl RegistryDevice {
    /// Parses a device observation; every field is optional.
    pub fn from_props(props: &Props) -> (r: RegistryDevice)
        ensures
            device_matches_props(r, props),
    {
        RegistryDevice {
            nickname: get_owned(props, "device.nick"),
            description: get_owned(props, "device.description"),
            name: get_owned(props, "device.name"),
            nodes: Vec::new(),
        }
    }

    /// Appends a child node id.
    pub fn add_node(&mut self, id: u32)
        ensures
            final(self).nodes@ == old(self).nodes@.push(id),
            final(self).nickname == old(self).nickname,
            final(self).description == old(self).description,
            final(self).name == old(self).name,
    {
        self.nodes.push(id);
    }

    /// Prunes every back-reference to a removed child node.
    pub fn remove_node(&mut self, id: u32)
        ensures
            final(self).nodes@ == seq_without(old(self).nodes@, id),
            final(self).nickname == old(self).nickname,
            final(self).description == old(self).description,
            final(self).name == old(self).name,
    {
        self.nodes = filter_out_id(&self.nodes, id);
    }
}

/// `s` without any occurrence of `id`, order preserved.
pub open spec fn seq_without(s: Seq<u32>, id: u32) -> Seq<u32>
    decreases s.len(),
{
    if s.len() == 0 {
        s
    } else {
        let rest = seq_without(s.drop_last(), id);
        if s.last() == id {
            rest
        } else {
            rest.push(s.last())
        }
    }
}

/// Copies `v` without any occurrence of `id`.
fn filter_out_id(v: &Vec<u32>, id: u32) -> (r: Vec<u32>)
    ensures
        r@ == seq_without(v@, id),
{
    let mut kept: Vec<u32> = Vec::new();
    let n: usize = v.len();
    let mut i: usize = 0;
    proof {
        assert(v@.subrange(0, 0) =~= Seq::<u32>::empty());
    }
    while i < n
        invariant
            n == v@.len(),
            0 <= i <= n,
            kept@ == seq_without(v@.subrange(0, i as int), id),
        decreases n - i,
    {
        let x = v[i];
        proof {
            let pre = v@.subrange(0, i as int);
            let ext = v@.subrange(0, i + 1);
            assert(ext.drop_last() =~= pre);
            assert(ext.last() == v@[i as int]);
        }
        if x != id {
            kept.push(x);
        }
        i += 1;
    }
    proof {
        assert(v@.subrange(0, n as int) =~= v@);
    }
    kept
}

/// One port of a node: host id, human name, channel label and whether
/// it is a monitor port.
pub struct RegistryPort {
    pub global_id: u32,
    pub name: String,
    pub channel: String,
    pub is_monitor: bool,
}

impl RegistryPort {
    /// Builds a port record from its parsed properties.
    pub fn new(id: u32, name: &str, channel: &str, is_monitor: bool) -> (r: RegistryPort)
        ensures
            r.global_id == id,
            r.name@ == name@,
            r.channel@ == channel@,
            r.is_monitor == is_monitor,
    {
        RegistryPort {
            global_id: id,
            name: String::from_str(name),
            channel: String::from_str(channel),
            is_monitor,
        }
    }
}

/// A node parented by a device, with its ports indexed by direction
/// and then by host id.
pub struct RegistryDeviceNode {
    pub parent_id: u32,
    pub nickname: Option<String>,
    pub description: Option<String>,
    pub name: Option<String>,
    pub in_ports: AssocMap<u32, RegistryPort>,
    pub out_ports: AssocMap<u32, RegistryPort>,
}

/// `n` carries exactly what the props say about a device node, with no
/// ports yet.
pub open spec fn device_node_matches_props(n: RegistryDeviceNode, p: &Props) -> bool {
    &&& Some(n.parent_id) == spec_get_u32(p, "device.id"@)
    &&& opt_matches(n.nickname, p.lookup("node.nick"@))
    &&& opt_matches(n.description, p.lookup("node.description"@))
    &&& opt_matches(n.name, p.lookup("node.name"@))
    &&& n.in_ports@ == Map::<u32, RegistryPort>::empty()
    &&& n.out_ports@ == Map::<u32, RegistryPort>::empty()
    &&& n.in_ports.wf()
    &&& n.out_ports.wf()
}

impl RegistryDeviceNode {
    /// Parses a device-node observation; the parent device id is
    /// required, the names are optional.
    pub fn from_props(props: &Props) -> (r: Result<RegistryDeviceNode, RegistryParseError>)
        ensures
            match r {
                Ok(n) => device_node_matches_props(n, props),
                Err(e) => e == RegistryParseError::MissingDeviceId && spec_get_u32(
                    props,
                    "device.id"@,
                ) is None,
            },
    {
        let parent_id = match get_u32(props, "device.id") {
            Some(v) => v,
            None => {
                return Err(RegistryParseError::MissingDeviceId);
            },
        };
        Ok(
            RegistryDeviceNode {
                parent_id,
                nickname: get_owned(props, "node.nick"),
                description: get_owned(props, "node.description"),
                name: get_owned(props, "node.name"),
                in_ports: AssocMap::new(),
                out_ports: AssocMap::new(),
            },
        )
    }

    /// Attaches a port under the given key and direction.
    pub fn add_port(&mut self, id: u32, direction: Direction, port: RegistryPort)
        requires
            old(self).in_ports.wf(),
            old(self).out_ports.wf(),
        ensures
            final(self).in_ports.wf(),
            final(self).out_ports.wf(),
            direction == Direction::In ==> final(self).in_ports@ == old(self).in_ports@.insert(
                id,
                port,
            ) && final(self).out_ports == old(self).out_ports,
            direction == Direction::Out ==> final(self).out_ports@ == old(self).out_ports@.insert(
                id,
                port,
            ) && final(self).in_ports == old(self).in_ports,
            final(self).parent_id == old(self).parent_id,
            final(self).nickname == old(self).nickname,
            final(self).description == old(self).description,
            final(self).name == old(self).name,
    {
        match direction {
            Direction::In => self.in_ports.insert(id, port),
            Direction::Out => self.out_ports.insert(id, port),
        }
    }

    /// Drops the port stored under `id` in either direction.
    pub fn remove_port(&mut self, id: u32)
        requires
            old(self).in_ports.wf(),
            old(self).out_ports.wf(),
        ensures
            final(self).in_ports.wf(),
            final(self).out_ports.wf(),
            final(self).in_ports@ == old(self).in_ports@.remove(id),
            final(self).out_ports@ == old(self).out_ports@.remove(id),
            final(self).parent_id == old(self).parent_id,
            final(self).nickname == old(self).nickname,
            final(self).description == old(self).description,
            final(self).name == old(self).name,
    {
        let _ = self.in_ports.remove(&id);
        let _ = self.out_ports.remove(&id);
    }
}

/// A client observed in the host registry; every field is required.
pub struct RegistryClient {
    pub module_id: u32,
    pub protocol: String,
    pub process_id: u32,
    pub user_id: u32,
    pub group_id: u32,
    pub access: String,
    pub application_name: String,
    pub nodes: Vec<u32>,
}

/// `c` carries exactly what the props say about a client, with no
/// child nodes yet.
pub open spec fn client_matches_props(c: RegistryClient, p: &Props) -> bool {
    &&& Some(c.module_id) == spec_get_u32(p, "module.id"@)
    &&& Some(c.protocol@) == p.lookup("pipewire.protocol"@)
    &&& Some(c.process_id) == spec_get_u32(p, "pipewire.sec.pid"@)
    &&& Some(c.user_id) == spec_get_u32(p, "pipewire.sec.uid"@)
    &&& Some(c.group_id) == spec_get_u32(p, "pipewire.sec.gid"@)
    &&& Some(c.access@) == p.lookup("pipewire.access"@)
    &&& Some(c.application_name@) == p.lookup("application.name"@)
    &&& c.nodes@ == Seq::<u32>::empty()
}

/// The first missing required client property, in the order they are
/// read, if any.
pub open spec fn client_missing_prop(p: &Props) -> Option<RegistryParseError> {
    if spec_get_u32(p, "module.id"@) is None {
        Some(RegistryParseError::MissingModuleId)
    } else if p.lookup("pipewire.protocol"@) is None {
        Some(RegistryParseError::MissingProtocol)
    } else if spec_get_u32(p, "pipewire.sec.pid"@) is None {
        Some(RegistryParseError::MissingProcessId)
    } else if spec_get_u32(p, "pipewire.sec.uid"@) is None {
        Some(RegistryParseError::MissingUserId)
    } else if spec_get_u32(p, "pipewire.sec.gid"@) is None {
        Some(RegistryParseError::MissingGroupId)
    } else if p.lookup("pipewire.access"@) is None {
        Some(RegistryParseError::MissingAccess)
    } else if p.lookup("application.name"@) is None {
        Some(RegistryParseError::MissingApplicationName)
    } else {
        None
    }
}

impl RegistryClient {
    /// Parses a client observation; all fields are required.
    pub fn from_props(props: &Props) -> (r: Result<RegistryClient, RegistryParseError>)
        ensures
            match r {
                Ok(c) => client_missing_prop(props) is None && client_matches_props(c, props),
                Err(e) => Some(e) == client_missing_prop(props),
            },
    {
        let module_id = match get_u32(props, "module.id") {
            Some(v) => v,
            None => {
                return Err(RegistryParseError::MissingModuleId);
            },
        };
        let protocol = match get_owned(props, "pipewire.protocol") {
            Some(v) => v,
            None => {
                return Err(RegistryParseError::MissingProtocol);
            },
        };
        let process_id = match get_u32(props, "pipewire.sec.pid") {
            Some(v) => v,
            None => {
                return Err(RegistryParseError::MissingProcessId);
            },
        };
        let user_id = match get_u32(props, "pipewire.sec.uid") {
            Some(v) => v,
            None => {
                return Err(RegistryParseError::MissingUserId);
            },
        };
        let group_id = match get_u32(props, "pipewire.sec.gid") {
            Some(v) => v,
            None => {
                return Err(RegistryParseError::MissingGroupId);
            },
        };
        let access = match get_owned(props, "pipewire.access") {
            Some(v) => v,
            None => {
                return Err(RegistryParseError::MissingAccess);
            },
        };
        let application_name = match get_owned(props, "application.name") {
            Some(v) => v,
            None => {
                return Err(RegistryParseError::MissingApplicationName);
            },
        };
        Ok(
            RegistryClient {
                module_id,
                protocol,
                process_id,
                user_id,
                group_id,
                access,
                application_name,
                nodes: Vec::new(),
            },
        )
    }

    /// Appends a child node id.
    pub fn add_node(&mut self, id: u32)
        ensures
            final(self).nodes@ == old(self).nodes@.push(id),
            final(self).module_id == old(self).module_id,
            final(self).protocol == old(self).protocol,
            final(self).process_id == old(self).process_id,
            final(self).user_id == old(self).user_id,
            final(self).group_id == old(self).group_id,
            final(self).access == old(self).access,
            final(self).application_name == old(self).application_name,
    {
        self.nodes.push(id);
    }

    /// Prunes every back-reference to a removed child node.
    pub fn remove_node(&mut self, id: u32)
        ensures
            final(self).nodes@ == seq_without(old(self).nodes@, id),
            final(self).module_id == old(self).module_id,
            final(self).protocol == old(self).protocol,
            final(self).process_id == old(self).process_id,
            final(self).user_id == old(self).user_id,
            final(self).group_id == old(self).group_id,
            final(self).access == old(self).access,
            final(self).application_name == old(self).application_name,
    {
        self.nodes = filter_out_id(&self.nodes, id);
    }
}

/// A node parented by a client.
pub struct RegistryClientNode {
    pub parent_id: u32,
    pub application_name: String,
    pub node_name: String,
    pub in_ports: AssocMap<u32, RegistryPort>,
    pub out_ports: AssocMap<u32, RegistryPort>,
}

/// The first missing required client-node property, in the order they
/// are read, if any.
pub open spec fn client_node_missing_prop(p: &Props) -> Option<RegistryParseError> {
    if spec_get_u32(p, "client.id"@) is None {
        Some(RegistryParseError::MissingClientId)
    } else if p.lookup("node.name"@) is None {
        Some(RegistryParseError::MissingNodeName)
    } else if p.lookup("application.name"@) is None {
        Some(RegistryParseError::MissingApplicationName)
    } else {
        None
    }
}

/// `n` carries exactly what the props say about a client node, with no
/// ports yet.
pub open spec fn client_node_matches_props(n: RegistryClientNode, p: &Props) -> bool {
    &&& Some(n.parent_id) == spec_get_u32(p, "client.id"@)
    &&& Some(n.node_name@) == p.lookup("node.name"@)
    &&& Some(n.application_name@) == p.lookup("application.name"@)
    &&& n.in_ports@ == Map::<u32, RegistryPort>::empty()
    &&& n.out_ports@ == Map::<u32, RegistryPort>::empty()
    &&& n.in_ports.wf()
    &&& n.out_ports.wf()
}

impl RegistryClientNode {
    /// Parses a client-node observation; parent client id, node name
    /// and application name are required.
    pub fn from_props(props: &Props) -> (r: Result<RegistryClientNode, RegistryParseError>)
        ensures
            match r {
                Ok(n) => client_node_missing_prop(props) is None && client_node_matches_props(
                    n,
                    props,
                ),
                Err(e) => Some(e) == client_node_missing_prop(props),
            },
    {
        let parent_id = match get_u32(props, "client.id") {
            Some(v) => v,
            None => {
                return Err(RegistryParseError::MissingClientId);
            },
        };
        let node_name = match get_owned(props, "node.name") {
            Some(v) => v,
            None => {
                return Err(RegistryParseError::MissingNodeName);
            },
        };
        let application_name = match get_owned(props, "application.name") {
            Some(v) => v,
            None => {
                return Err(RegistryParseError::MissingApplicationName);
            },
        };
        Ok(
            RegistryClientNode {
                parent_id,
                application_name,
                node_name,
                in_ports: AssocMap::new(),
                out_ports: AssocMap::new(),
            },
        )
    }

    /// Attaches a port under the given key and direction.
    pub fn add_port(&mut self, id: u32, direction: Direction, port: RegistryPort)
        requires
            old(self).in_ports.wf(),
            old(self).out_ports.wf(),
        ensures
            final(self).in_ports.wf(),
            final(self).out_ports.wf(),
            direction == Direction::In ==> final(self).in_ports@ == old(self).in_ports@.insert(
                id,
                port,
            ) && final(self).out_ports == old(self).out_ports,
            direction == Direction::Out ==> final(self).out_ports@ == old(self).out_ports@.insert(
                id,
                port,
            ) && final(self).in_ports == old(self).in_ports,
            final(self).parent_id == old(self).parent_id,
            final(self).application_name == old(self).application_name,
            final(self).node_name == old(self).node_name,
    {
        match direction {
            Direction::In => self.in_ports.insert(id, port),
            Direction::Out => self.out_ports.insert(id, port),
        }
    }

    /// Drops the port stored under `id` in either direction.
    pub fn remove_port(&mut self, id: u32)
        requires
            old(self).in_ports.wf(),
            old(self).out_ports.wf(),
        ensures
            final(self).in_ports.wf(),
            final(self).out_ports.wf(),
            final(self).in_ports@ == old(self).in_ports@.remove(id),
            final(self).out_ports@ == old(self).out_ports@.remove(id),
            final(self).parent_id == old(self).parent_id,
            final(self).application_name == old(self).application_name,
            final(self).node_name == old(self).node_name,
    {
        let _ = self.in_ports.remove(&id);
        let _ = self.out_ports.remove(&id);
    }
}

/// A link observed in the host registry, identified by its four
/// endpoint ids.
#[derive(Clone, Copy, PartialEq, Eq, Structural, Debug)]
pub struct RegistryLink {
    pub input_node: u32,
    pub input_port: u32,
    pub output_node: u32,
    pub output_port: u32,
}

/// The first missing required link property, in the order they are
/// read, if any.
pub open spec fn link_missing_prop(p: &Props) -> Option<RegistryParseError> {
    if spec_get_u32(p, "link.input.node"@) is None {
        Some(RegistryParseError::MissingLinkInputNode)
    } else if spec_get_u32(p, "link.input.port"@) is None {
        Some(RegistryParseError::MissingLinkInputPort)
    } else if spec_get_u32(p, "link.output.node"@) is None {
        Some(RegistryParseError::MissingLinkOutputNode)
    } else if spec_get_u32(p, "link.output.port"@) is None {
        Some(RegistryParseError::MissingLinkOutputPort)
    } else {
        None
    }
}

/// `l` carries exactly the four endpoint ids the props hold.
pub open spec fn link_matches_props(l: RegistryLink, p: &Props) -> bool {
    &&& Some(l.input_node) == spec_get_u32(p, "link.input.node"@)
    &&& Some(l.input_port) == spec_get_u32(p, "link.input.port"@)
    &&& Some(l.output_node) == spec_get_u32(p, "link.output.node"@)
    &&& Some(l.output_port) == spec_get_u32(p, "link.output.port"@)
}

impl RegistryLink {
    /// Parses a link observation; all four endpoint ids are required.
    pub fn from_props(props: &Props) -> (r: Result<RegistryLink, RegistryParseError>)
        ensures
            match r {
                Ok(l) => link_missing_prop(props) is None && link_matches_props(l, props),
                Err(e) => Some(e) == link_missing_prop(props),
            },
    {
        let input_node = match get_u32(props, "link.input.node") {
            Some(v) => v,
            None => {
                return Err(RegistryParseError::MissingLinkInputNode);
            },
        };
        let input_port = match get_u32(props, "link.input.port") {
            Some(v) => v,
            None => {
                return Err(RegistryParseError::MissingLinkInputPort);
            },
        };
        let output_node = match get_u32(props, "link.output.node") {
            Some(v) => v,
            None => {
                return Err(RegistryParseError::MissingLinkOutputNode);
            },
        };
        let output_port = match get_u32(props, "link.output.port") {
            Some(v) => v,
            None => {
                return Err(RegistryParseError::MissingLinkOutputPort);
            },
        };
        Ok(RegistryLink { input_node, input_port, output_node, output_port })
    }
}

/// A factory observed in the host registry, used to instantiate
/// filter nodes.
pub struct RegistryFactory {
    pub module_id: u32,
    pub name: String,
    pub factory_type: ObjectType,
    pub version: u32,
}

/// The first missing required factory property, in the order they are
/// read, if any.
pub open spec fn factory_missing_prop(p: &Props) -> Option<RegistryParseError> {
    if spec_get_u32(p, "module.id"@) is None {
        Some(RegistryParseError::MissingModuleId)
    } else if p.lookup("factory.name"@) is None {
        Some(RegistryParseError::MissingFactoryName)
    } else if p.lookup("factory.type.name"@) is None {
        Some(RegistryParseError::MissingFactoryType)
    } else if spec_get_u32(p, "factory.type.version"@) is None {
        Some(RegistryParseError::MissingFactoryVersion)
    } else {
        None
    }
}

/// `f` carries exactly what the props say about a factory; the type
/// string is mapped through [`spec_known_object_type`].
pub open spec fn factory_matches_props(f: RegistryFactory, p: &Props) -> bool {
    &&& Some(f.module_id) == spec_get_u32(p, "module.id"@)
    &&& Some(f.name@) == p.lookup("factory.name"@)
    &&& match spec_known_object_type(p.lookup("factory.type.name"@).unwrap()) {
        Some(t) => f.factory_type == t,
        None => f.factory_type matches ObjectType::Other(o) && Some(o@) == p.lookup(
            "factory.type.name"@,
        ),
    }
    &&& Some(f.version) == spec_get_u32(p, "factory.type.version"@)
}

impl RegistryFactory {
    /// Parses a factory observation.
    pub fn from_props(props: &Props) -> (r: Result<RegistryFactory, RegistryParseError>)
        ensures
            match r {
                Ok(f) => factory_missing_prop(props) is None && factory_matches_props(f, props),
                Err(e) => Some(e) == factory_missing_prop(props),
            },
    {
        let module_id = match get_u32(props, "module.id") {
            Some(v) => v,
            None => {
                return Err(RegistryParseError::MissingModuleId);
            },
        };
        let name = match get_owned(props, "factory.name") {
            Some(v) => v,
            None => {
                return Err(RegistryParseError::MissingFactoryName);
            },
        };
        let factory_type = match props.get("factory.type.name") {
            Some(v) => to_object_type(v.as_str()),
            None => {
                return Err(RegistryParseError::MissingFactoryType);
            },
        };
        let version = match get_u32(props, "factory.type.version") {
            Some(v) => v,
            None => {
                return Err(RegistryParseError::MissingFactoryVersion);
            },
        };
        Ok(RegistryFactory { module_id, name, factory_type, version })
    }
}

/// The mirror's collections, each keyed by host id.
pub struct Store {
    pub devices: AssocMap<u32, RegistryDevice>,
    pub device_nodes: AssocMap<u32, RegistryDeviceNode>,
    pub clients: AssocMap<u32, RegistryClient>,
    pub client_nodes: AssocMap<u32, RegistryClientNode>,
    pub links: AssocMap<u32, RegistryLink>,
    pub factories: AssocMap<u32, RegistryFactory>,
}

/// A parent record with one more child and everything else unchanged.
pub open spec fn device_with_child(d: RegistryDevice, d2: RegistryDevice, id: u32) -> bool {
    &&& d2.nodes@ == d.nodes@.push(id)
    &&& d2.nickname == d.nickname
    &&& d2.description == d.description
    &&& d2.name == d.name
}

/// A parent record with one more child and everything else unchanged.
pub open spec fn client_with_child(c: RegistryClient, c2: RegistryClient, id: u32) -> bool {
    &&& c2.nodes@ == c.nodes@.push(id)
    &&& c2.module_id == c.module_id
    &&& c2.protocol == c.protocol
    &&& c2.process_id == c.process_id
    &&& c2.user_id == c.user_id
    &&& c2.group_id == c.group_id
    &&& c2.access == c.access
    &&& c2.application_name == c.application_name
}

/// A parent record with every back-reference to `id` pruned.
pub open spec fn device_pruned(d: RegistryDevice, d2: RegistryDevice, id: u32) -> bool {
    &&& d2.nodes@ == seq_without(d.nodes@, id)
    &&& d2.nickname == d.nickname
    &&& d2.description == d.description
    &&& d2.name == d.name
}

/// A parent record with every back-reference to `id` pruned.
pub open spec fn client_pruned(c: RegistryClient, c2: RegistryClient, id: u32) -> bool {
    &&& c2.nodes@ == seq_without(c.nodes@, id)
    &&& c2.module_id == c.module_id
    &&& c2.protocol == c.protocol
    &&& c2.process_id == c.process_id
    &&& c2.user_id == c.user_id
    &&& c2.group_id == c.group_id
    &&& c2.access == c.access
    &&& c2.application_name == c.application_name
}

/// A node record with the port keyed `id` dropped from both directions.
pub open spec fn device_node_stripped(
    n: RegistryDeviceNode,
    n2: RegistryDeviceNode,
    id: u32,
) -> bool {
    &&& n2.in_ports@ == n.in_ports@.remove(id)
    &&& n2.out_ports@ == n.out_ports@.remove(id)
    &&& n2.in_ports.wf() && n2.out_ports.wf()
    &&& n2.parent_id == n.parent_id
    &&& n2.nickname == n.nickname
    &&& n2.description == n.description
    &&& n2.name == n.name
}

/// A node record with the port keyed `id` dropped from both directions.
pub open spec fn client_node_stripped(
    n: RegistryClientNode,
    n2: RegistryClientNode,
    id: u32,
) -> bool {
    &&& n2.in_ports@ == n.in_ports@.remove(id)
    &&& n2.out_ports@ == n.out_ports@.remove(id)
    &&& n2.in_ports.wf() && n2.out_ports.wf()
    &&& n2.parent_id == n.parent_id
    &&& n2.application_name == n.application_name
    &&& n2.node_name == n.node_name
}

/// What one `global_remove(id)` does to the mirror: the first
/// collection that owns the id loses it and parent back-references are
/// pruned; an id owned by no collection is treated as a port key and
/// dropped from every node's port indices.
pub open spec fn store_removed(pre: Store, post: Store, id: u32) -> bool {
    if pre.devices@.contains_key(id) {
        &&& post.devices@ == pre.devices@.remove(id)
        &&& post.device_nodes == pre.device_nodes
        &&& post.clients == pre.clients
        &&& post.client_nodes == pre.client_nodes
        &&& post.links == pre.links
        &&& post.factories == pre.factories
    } else if pre.device_nodes@.contains_key(id) {
        let parent = pre.device_nodes@[id].parent_id;
        &&& post.device_nodes@ == pre.device_nodes@.remove(id)
        &&& if pre.devices@.contains_key(parent) {
            &&& post.devices@.contains_key(parent)
            &&& device_pruned(pre.devices@[parent], post.devices@[parent], id)
            &&& post.devices@ == pre.devices@.insert(parent, post.devices@[parent])
        } else {
            post.devices == pre.devices
        }
        &&& post.clients == pre.clients
        &&& post.client_nodes == pre.client_nodes
        &&& post.links == pre.links
        &&& post.factories == pre.factories
    } else if pre.clients@.contains_key(id) {
        &&& post.clients@ == pre.clients@.remove(id)
        &&& post.devices == pre.devices
        &&& post.device_nodes == pre.device_nodes
        &&& post.client_nodes == pre.client_nodes
        &&& post.links == pre.links
        &&& post.factories == pre.factories
    } else if pre.client_nodes@.contains_key(id) {
        let parent = pre.client_nodes@[id].parent_id;
        &&& post.client_nodes@ == pre.client_nodes@.remove(id)
        &&& if pre.clients@.contains_key(parent) {
            &&& post.clients@.contains_key(parent)
            &&& client_pruned(pre.clients@[parent], post.clients@[parent], id)
            &&& post.clients@ == pre.clients@.insert(parent, post.clients@[parent])
        } else {
            post.clients == pre.clients
        }
        &&& post.devices == pre.devices
        &&& post.device_nodes == pre.device_nodes
        &&& post.links == pre.links
        &&& post.factories == pre.factories
    } else if pre.links@.contains_key(id) {
        &&& post.links@ == pre.links@.remove(id)
        &&& post.devices == pre.devices
        &&& post.device_nodes == pre.device_nodes
        &&& post.clients == pre.clients
        &&& post.client_nodes == pre.client_nodes
        &&& post.factories == pre.factories
    } else if pre.factories@.contains_key(id) {
        &&& post.factories@ == pre.factories@.remove(id)
        &&& post.devices == pre.devices
        &&& post.device_nodes == pre.device_nodes
        &&& post.clients == pre.clients
        &&& post.client_nodes == pre.client_nodes
        &&& post.links == pre.links
    } else {
        &&& post.device_nodes@.dom() == pre.device_nodes@.dom()
        &&& forall|k: u32| #[trigger]
            post.device_nodes@.contains_key(k) ==> device_node_stripped(
                pre.device_nodes@[k],
                post.device_nodes@[k],
                id,
            )
        &&& post.client_nodes@.dom() == pre.client_nodes@.dom()
        &&& forall|k: u32| #[trigger]
            post.client_nodes@.contains_key(k) ==> client_node_stripped(
                pre.client_nodes@[k],
                post.client_nodes@[k],
                id,
            )
        &&& post.devices == pre.devices
        &&& post.clients == pre.clients
        &&& post.links == pre.links
        &&& post.factories == pre.factories
    }
}

impl Store {
    /// Every collection has distinct keys and every node's port
    /// indices are well-formed.
    pub open spec fn wf(&self) -> bool {
        &&& self.devices.wf()
        &&& self.device_nodes.wf()
        &&& self.clients.wf()
        &&& self.client_nodes.wf()
        &&& self.links.wf()
        &&& self.factories.wf()
        &&& forall|k: u32| #[trigger]
            self.device_nodes@.contains_key(k) ==> self.device_nodes@[k].in_ports.wf()
                && self.device_nodes@[k].out_ports.wf()
        &&& forall|k: u32| #[trigger]
            self.client_nodes@.contains_key(k) ==> self.client_nodes@[k].in_ports.wf()
                && self.client_nodes@[k].out_ports.wf()
    }

    /// An empty mirror.
    pub fn new() -> (r: Store)
        ensures
            r.wf(),
            r.devices@ == Map::<u32, RegistryDevice>::empty(),
            r.device_nodes@ == Map::<u32, RegistryDeviceNode>::empty(),
            r.clients@ == Map::<u32, RegistryClient>::empty(),
            r.client_nodes@ == Map::<u32, RegistryClientNode>::empty(),
            r.links@ == Map::<u32, RegistryLink>::empty(),
            r.factories@ == Map::<u32, RegistryFactory>::empty(),
    {
        Store {
            devices: AssocMap::new(),
            device_nodes: AssocMap::new(),
            clients: AssocMap::new(),
            client_nodes: AssocMap::new(),
            links: AssocMap::new(),
            factories: AssocMap::new(),
        }
    }

    /// Borrow the device stored under `id`.
    pub fn unmanaged_device_get(&self, id: u32) -> (r: Option<&RegistryDevice>)
        requires
            self.wf(),
        ensures
            match r {
                Some(d) => self.devices@.contains_key(id) && *d == self.devices@[id],
                None => !self.devices@.contains_key(id),
            },
    {
        self.devices.get(&id)
    }

    /// Borrow the device node stored under `id`.
    pub fn unmanaged_device_node_get(&self, id: u32) -> (r: Option<&RegistryDeviceNode>)
        requires
            self.wf(),
        ensures
            match r {
                Some(n) => self.device_nodes@.contains_key(id) && *n == self.device_nodes@[id],
                None => !self.device_nodes@.contains_key(id),
            },
    {
        self.device_nodes.get(&id)
    }

    /// Borrow the client stored under `id`.
    pub fn unmanaged_client_get(&self, id: u32) -> (r: Option<&RegistryClient>)
        requires
            self.wf(),
        ensures
            match r {
                Some(c) => self.clients@.contains_key(id) && *c == self.clients@[id],
                None => !self.clients@.contains_key(id),
            },
    {
        self.clients.get(&id)
    }

    /// Borrow the client node stored under `id`.
    pub fn unmanaged_client_node_get(&self, id: u32) -> (r: Option<&RegistryClientNode>)
        requires
            self.wf(),
        ensures
            match r {
                Some(n) => self.client_nodes@.contains_key(id) && *n == self.client_nodes@[id],
                None => !self.client_nodes@.contains_key(id),
            },
    {
        self.client_nodes.get(&id)
    }

    /// Borrow the link stored under `id`.
    pub fn unmanaged_link_get(&self, id: u32) -> (r: Option<&RegistryLink>)
        requires
            self.wf(),
        ensures
            match r {
                Some(l) => self.links@.contains_key(id) && *l == self.links@[id],
                None => !self.links@.contains_key(id),
            },
    {
        self.links.get(&id)
    }

    /// Borrow the factory stored under `id`.
    pub fn factory_get(&self, id: u32) -> (r: Option<&RegistryFactory>)
        requires
            self.wf(),
        ensures
            match r {
                Some(f) => self.factories@.contains_key(id) && *f == self.factories@[id],
                None => !self.factories@.contains_key(id),
            },
    {
        self.factories.get(&id)
    }

    /// Deletes whatever the mirror stores under `id`, pruning parent
    /// back-references; an unknown id is treated as a port key.
    pub fn remove_by_id(&mut self, id: u32)
        requires
            old(self).wf(),
        ensures
            final(self).wf(),
            store_removed(*old(self), *final(self), id),
    {
        if self.devices.contains_key(&id) {
            let _ = self.devices.remove(&id);
            return ;
        }
        if self.device_nodes.contains_key(&id) {
            let node = self.device_nodes.remove(&id);
            let parent = match node {
                Some(n) => n.parent_id,
                None => 0,
            };
            if self.devices.contains_key(&parent) {
                let dev = self.devices.remove(&parent);
                match dev {
                    Some(mut d) => {
                        d.remove_node(id);
                        self.devices.insert(parent, d);
                        proof {
                            assert(self.devices@ =~= old(self).devices@.insert(
                                parent,
                                self.devices@[parent],
                            ));
                        }
                    },
                    None => {},
                }
            }
            return ;
        }
        if self.clients.contains_key(&id) {
            let _ = self.clients.remove(&id);
            return ;
        }
        if self.client_nodes.contains_key(&id) {
            let node = self.client_nodes.remove(&id);
            let parent = match node {
                Some(n) => n.parent_id,
                None => 0,
            };
            if self.clients.contains_key(&parent) {
                let cl = self.clients.remove(&parent);
                match cl {
                    Some(mut c) => {
                        c.remove_node(id);
                        self.clients.insert(parent, c);
                        proof {
                            assert(self.clients@ =~= old(self).clients@.insert(
                                parent,
                                self.clients@[parent],
                            ));
                        }
                    },
                    None => {},
                }
            }
            return ;
        }
        if self.links.contains_key(&id) {
            let _ = self.links.remove(&id);
            return ;
        }
        if self.factories.contains_key(&id) {
            let _ = self.factories.remove(&id);
            return ;
        }
        self.strip_port_everywhere(id);
    }

    /// Drops the port keyed `id` from every node's port indices.
    fn strip_port_everywhere(&mut self, id: u32)
        requires
            old(self).wf(),
        ensures
            final(self).wf(),
            final(self).device_nodes@.dom() == old(self).device_nodes@.dom(),
            forall|k: u32| #[trigger]
                final(self).device_nodes@.contains_key(k) ==> device_node_stripped(
                    old(self).device_nodes@[k],
                    final(self).device_nodes@[k],
                    id,
                ),
            final(self).client_nodes@.dom() == old(self).client_nodes@.dom(),
            forall|k: u32| #[trigger]
                final(self).client_nodes@.contains_key(k) ==> client_node_stripped(
                    old(self).client_nodes@[k],
                    final(self).client_nodes@[k],
                    id,
                ),
            final(self).devices == old(self).devices,
            final(self).clients == old(self).clients,
            final(self).links == old(self).links,
            final(self).factories == old(self).factories,
    {
        let ghost pre_dn = self.device_nodes.entries_seq();
        proof {
            assert forall|j: int| 0 <= j < pre_dn.len() implies (#[trigger] pre_dn[j]).1.in_ports.wf()
                && pre_dn[j].1.out_ports.wf() by {
                lemma_seq_index_view(pre_dn, j);
            }
        }
        let n: usize = self.device_nodes.len();
        let mut i: usize = 0;
        while i < n
            invariant
                self.device_nodes.wf(),
                n == self.device_nodes.entries_seq().len(),
                n == pre_dn.len(),
                0 <= i <= n,
                forall|j: int|
                    0 <= j < i ==> (#[trigger] self.device_nodes.entries_seq()[j]).0 == pre_dn[j].0
                        && device_node_stripped(
                        pre_dn[j].1,
                        self.device_nodes.entries_seq()[j].1,
                        id,
                    ),
                forall|j: int| i <= j < n ==> self.device_nodes.entries_seq()[j] == pre_dn[j],
                seq_unique(pre_dn),
                forall|j: int|
                    0 <= j < n ==> (#[trigger] pre_dn[j]).1.in_ports.wf()
                        && pre_dn[j].1.out_ports.wf(),
                self.devices == old(self).devices,
                self.clients == old(self).clients,
                self.client_nodes == old(self).client_nodes,
                self.links == old(self).links,
                self.factories == old(self).factories,
            decreases n - i,
        {
            let ghost s_it = self.device_nodes.entries_seq();
            let (k, mut node) = self.device_nodes.take_entry_at(i);
            proof {
                assert(s_it[i as int] == pre_dn[i as int]);
                assert(pre_dn[i as int].1.in_ports.wf() && pre_dn[i as int].1.out_ports.wf());
            }
            node.remove_port(id);
            self.device_nodes.put_entry_at(i, k, node);
            proof {
                let s_new = self.device_nodes.entries_seq();
                assert(s_new =~= s_it.update(i as int, s_new[i as int]));
            }
            i += 1;
        }
        proof {
            lemma_pointwise_device_nodes(pre_dn, self.device_nodes.entries_seq(), id);
            assert(self.device_nodes@.dom() =~= old(self).device_nodes@.dom());
        }
        let ghost dn_mid = self.device_nodes;
        let ghost pre_cn = self.client_nodes.entries_seq();
        proof {
            assert(self.client_nodes == old(self).client_nodes);
            assert forall|j: int| 0 <= j < pre_cn.len() implies (#[trigger] pre_cn[j]).1.in_ports.wf()
                && pre_cn[j].1.out_ports.wf() by {
                lemma_seq_index_view(pre_cn, j);
                let kk: u32 = pre_cn[j].0;
                assert(old(self).client_nodes@.contains_key(kk));
                assert(old(self).client_nodes@[kk] == pre_cn[j].1);
            }
        }
        let m: usize = self.client_nodes.len();
        let mut q: usize = 0;
        while q < m
            invariant
                self.client_nodes.wf(),
                m == self.client_nodes.entries_seq().len(),
                m == pre_cn.len(),
                0 <= q <= m,
                forall|j: int|
                    0 <= j < q ==> (#[trigger] self.client_nodes.entries_seq()[j]).0 == pre_cn[j].0
                        && client_node_stripped(
                        pre_cn[j].1,
                        self.client_nodes.entries_seq()[j].1,
                        id,
                    ),
                forall|j: int| q <= j < m ==> self.client_nodes.entries_seq()[j] == pre_cn[j],
                seq_unique(pre_cn),
                forall|j: int|
                    0 <= j < m ==> (#[trigger] pre_cn[j]).1.in_ports.wf()
                        && pre_cn[j].1.out_ports.wf(),
                self.devices == old(self).devices,
                self.clients == old(self).clients,
                self.device_nodes == dn_mid,
                self.links == old(self).links,
                self.factories == old(self).factories,
            decreases m - q,
        {
            let ghost s_it = self.client_nodes.entries_seq();
            let (k, mut node) = self.client_nodes.take_entry_at(q);
            proof {
                assert(s_it[q as int] == pre_cn[q as int]);
                assert(pre_cn[q as int].1.in_ports.wf() && pre_cn[q as int].1.out_ports.wf());
            }
            node.remove_port(id);
            self.client_nodes.put_entry_at(q, k, node);
            proof {
                let s_new = self.client_nodes.entries_seq();
                assert(s_new =~= s_it.update(q as int, s_new[q as int]));
            }
            q += 1;
        }
        proof {
            lemma_pointwise_client_nodes(pre_cn, self.client_nodes.entries_seq(), id);
            assert(self.client_nodes@.dom() =~= old(self).client_nodes@.dom());
        }
    }
}

/// Lifts the entry-by-entry port strip of the device-node table to its
/// map view.
proof fn lemma_pointwise_device_nodes(
    pre: Seq<(u32, RegistryDeviceNode)>,
    post: Seq<(u32, RegistryDeviceNode)>,
    id: u32,
)
    requires
        seq_unique(pre),
        seq_unique(post),
        pre.len() == post.len(),
        forall|j: int|
            0 <= j < pre.len() ==> (#[trigger] post[j]).0 == pre[j].0 && device_node_stripped(
                pre[j].1,
                post[j].1,
                id,
            ),
    ensures
        forall|k: u32|
            seq_as_map(post).contains_key(k) == seq_as_map(pre).contains_key(k),
        forall|k: u32| #[trigger]
            seq_as_map(post).contains_key(k) ==> device_node_stripped(
                seq_as_map(pre)[k],
                seq_as_map(post)[k],
                id,
            ),
{
    assert forall|k: u32|
        seq_as_map(post).contains_key(k) == seq_as_map(pre).contains_key(k) by {
        if seq_contains_key(post, k) {
            let j: int = choose|j: int| 0 <= j < post.len() && post[j].0 == k;
            assert(pre[j].0 == k);
        }
        if seq_contains_key(pre, k) {
            let j: int = choose|j: int| 0 <= j < pre.len() && pre[j].0 == k;
            assert(post[j].0 == k);
        }
    }
    assert forall|k: u32| #[trigger] seq_as_map(post).contains_key(k) implies device_node_stripped(
        seq_as_map(pre)[k],
        seq_as_map(post)[k],
        id,
    ) by {
        let j: int = choose|j: int| 0 <= j < post.len() && post[j].0 == k;
        lemma_seq_index_view(post, j);
        lemma_seq_index_view(pre, j);
    }
}

/// What the registry mirror tells the engine while it digests host
/// events.
#[derive(Clone, Copy, PartialEq, Eq, Structural, Debug)]
pub enum EngineEvent {
    /// A device node gained a port; its readiness may have changed.
    NodeReadinessChanged(u32),
    /// A node's link inventory changed.
    NodeLinksChanged(u32),
}

/// A `global` event for a device: parse and insert, everything else
/// untouched.
pub open spec fn device_event(pre: Store, post: Store, id: u32, p: &Props) -> bool {
    &&& post.devices@.contains_key(id)
    &&& device_matches_props(post.devices@[id], p)
    &&& post.devices@ == pre.devices@.insert(id, post.devices@[id])
    &&& post.device_nodes == pre.device_nodes
    &&& post.clients == pre.clients
    &&& post.client_nodes == pre.client_nodes
    &&& post.links == pre.links
    &&& post.factories == pre.factories
}

/// A `global` event for a node: each reading that parses and whose
/// parent is known attaches the node and appends the child reference.
pub open spec fn node_event(pre: Store, post: Store, id: u32, p: &Props) -> bool {
    let dn_ok = spec_get_u32(p, "device.id"@) is Some;
    let dn_parent = spec_get_u32(p, "device.id"@).unwrap();
    let dn_attach = dn_ok && pre.devices@.contains_key(dn_parent);
    let cn_ok = client_node_missing_prop(p) is None;
    let cn_parent = spec_get_u32(p, "client.id"@).unwrap();
    let cn_attach = cn_ok && pre.clients@.contains_key(cn_parent);
    &&& if dn_attach {
        &&& post.device_nodes@.contains_key(id)
        &&& device_node_matches_props(post.device_nodes@[id], p)
        &&& post.device_nodes@ == pre.device_nodes@.insert(id, post.device_nodes@[id])
        &&& post.devices@.contains_key(dn_parent)
        &&& device_with_child(pre.devices@[dn_parent], post.devices@[dn_parent], id)
        &&& post.devices@ == pre.devices@.insert(dn_parent, post.devices@[dn_parent])
    } else {
        &&& post.device_nodes == pre.device_nodes
        &&& post.devices == pre.devices
    }
    &&& if cn_attach {
        &&& post.client_nodes@.contains_key(id)
        &&& client_node_matches_props(post.client_nodes@[id], p)
        &&& post.client_nodes@ == pre.client_nodes@.insert(id, post.client_nodes@[id])
        &&& post.clients@.contains_key(cn_parent)
        &&& client_with_child(pre.clients@[cn_parent], post.clients@[cn_parent], id)
        &&& post.clients@ == pre.clients@.insert(cn_parent, post.clients@[cn_parent])
    } else {
        &&& post.client_nodes == pre.client_nodes
        &&& post.clients == pre.clients
    }
    &&& post.links == pre.links
    &&& post.factories == pre.factories
}

/// The port direction the props request, when it is one the mirror
/// tracks; `notify` and `control` ports are ignored entirely.
pub open spec fn port_direction_of(p: &Props) -> Option<Direction> {
    match p.lookup("port.direction"@) {
        Some(d) => if d == "in"@ {
            Some(Direction::In)
        } else if d == "out"@ {
            Some(Direction::Out)
        } else {
            None
        },
        None => None,
    }
}

/// All properties a port observation needs before it is considered.
pub open spec fn port_fields_ok(p: &Props) -> bool {
    &&& p.lookup("node.id"@) is Some
    &&& p.lookup("port.id"@) is Some
    &&& p.lookup("port.name"@) is Some
    &&& p.lookup("audio.channel"@) is Some
    &&& port_direction_of(p) is Some
}

/// `port` carries exactly what the props say, under global id `id`;
/// a missing or malformed monitor flag defaults to `false`.
pub open spec fn port_matches_props(port: RegistryPort, id: u32, p: &Props) -> bool {
    &&& port.global_id == id
    &&& Some(port.name@) == p.lookup("port.name"@)
    &&& Some(port.channel@) == p.lookup("audio.channel"@)
    &&& port.is_monitor == (p.lookup("port.monitor"@) == Some("true"@))
}

/// A device node equal to `n` but with one more port under `key`.
pub open spec fn device_node_with_port(
    n: RegistryDeviceNode,
    n2: RegistryDeviceNode,
    key: u32,
    d: Direction,
    id: u32,
    p: &Props,
) -> bool {
    &&& if d == Direction::In {
        &&& n2.in_ports@.contains_key(key)
        &&& port_matches_props(n2.in_ports@[key], id, p)
        &&& n2.in_ports@ == n.in_ports@.insert(key, n2.in_ports@[key])
        &&& n2.out_ports == n.out_ports
    } else {
        &&& n2.out_ports@.contains_key(key)
        &&& port_matches_props(n2.out_ports@[key], id, p)
        &&& n2.out_ports@ == n.out_ports@.insert(key, n2.out_ports@[key])
        &&& n2.in_ports == n.in_ports
    }
    &&& n2.in_ports.wf() && n2.out_ports.wf()
    &&& n2.parent_id == n.parent_id
    &&& n2.nickname == n.nickname
    &&& n2.description == n.description
    &&& n2.name == n.name
}

/// A client node equal to `n` but with one more port under `key`.
pub open spec fn client_node_with_port(
    n: RegistryClientNode,
    n2: RegistryClientNode,
    key: u32,
    d: Direction,
    id: u32,
    p: &Props,
) -> bool {
    &&& if d == Direction::In {
        &&& n2.in_ports@.contains_key(key)
        &&& port_matches_props(n2.in_ports@[key], id, p)
        &&& n2.in_ports@ == n.in_ports@.insert(key, n2.in_ports@[key])
        &&& n2.out_ports == n.out_ports
    } else {
        &&& n2.out_ports@.contains_key(key)
        &&& port_matches_props(n2.out_ports@[key], id, p)
        &&& n2.out_ports@ == n.out_ports@.insert(key, n2.out_ports@[key])
        &&& n2.in_ports == n.in_ports
    }
    &&& n2.in_ports.wf() && n2.out_ports.wf()
    &&& n2.parent_id == n.parent_id
    &&& n2.application_name == n.application_name
    &&& n2.node_name == n.node_name
}

/// A `global` event for a port: with all required properties present,
/// the port lands on the device node (keyed by the port's global id,
/// and the engine hears that readiness may have changed) or else on
/// the client node (keyed by the local port id).
pub open spec fn port_event(
    pre: Store,
    post: Store,
    pre_ev: Seq<EngineEvent>,
    post_ev: Seq<EngineEvent>,
    id: u32,
    p: &Props,
) -> bool {
    let nid_opt = spec_get_u32(p, "node.id"@);
    let pid_opt = spec_get_u32(p, "port.id"@);
    let ready = port_fields_ok(p) && nid_opt is Some && pid_opt is Some;
    let nid = nid_opt.unwrap();
    let pid = pid_opt.unwrap();
    let dir = port_direction_of(p).unwrap();
    if ready && pre.device_nodes@.contains_key(nid) {
        &&& post.device_nodes@.contains_key(nid)
        &&& device_node_with_port(
            pre.device_nodes@[nid],
            post.device_nodes@[nid],
            id,
            dir,
            id,
            p,
        )
        &&& post.device_nodes@ == pre.device_nodes@.insert(nid, post.device_nodes@[nid])
        &&& post.devices == pre.devices
        &&& post.clients == pre.clients
        &&& post.client_nodes == pre.client_nodes
        &&& post.links == pre.links
        &&& post.factories == pre.factories
        &&& post_ev == pre_ev.push(EngineEvent::NodeReadinessChanged(nid))
    } else if ready && pre.client_nodes@.contains_key(nid) {
        &&& post.client_nodes@.contains_key(nid)
        &&& client_node_with_port(
            pre.client_nodes@[nid],
            post.client_nodes@[nid],
            pid,
            dir,
            id,
            p,
        )
        &&& post.client_nodes@ == pre.client_nodes@.insert(nid, post.client_nodes@[nid])
        &&& post.devices == pre.devices
        &&& post.device_nodes == pre.device_nodes
        &&& post.clients == pre.clients
        &&& post.links == pre.links
        &&& post.factories == pre.factories
        &&& post_ev == pre_ev
    } else {
        &&& post == pre
        &&& post_ev == pre_ev
    }
}

/// A `global` event for a link: a parsed link is recorded and the
/// engine hears that both endpoint nodes' inventories changed.
pub open spec fn link_event(
    pre: Store,
    post: Store,
    pre_ev: Seq<EngineEvent>,
    post_ev: Seq<EngineEvent>,
    id: u32,
    p: &Props,
) -> bool {
    if link_missing_prop(p) is None {
        &&& post.links@.contains_key(id)
        &&& link_matches_props(post.links@[id], p)
        &&& post.links@ == pre.links@.insert(id, post.links@[id])
        &&& post.devices == pre.devices
        &&& post.device_nodes == pre.device_nodes
        &&& post.clients == pre.clients
        &&& post.client_nodes == pre.client_nodes
        &&& post.factories == pre.factories
        &&& post_ev == pre_ev.push(
            EngineEvent::NodeLinksChanged(post.links@[id].input_node),
        ).push(EngineEvent::NodeLinksChanged(post.links@[id].output_node))
    } else {
        &&& post == pre
        &&& post_ev == pre_ev
    }
}

/// A `global` event for a factory: parse and insert, or drop.
pub open spec fn factory_event(pre: Store, post: Store, id: u32, p: &Props) -> bool {
    if factory_missing_prop(p) is None {
        &&& post.factories@.contains_key(id)
        &&& factory_matches_props(post.factories@[id], p)
        &&& post.factories@ == pre.factories@.insert(id, post.factories@[id])
        &&& post.devices == pre.devices
        &&& post.device_nodes == pre.device_nodes
        &&& post.clients == pre.clients
        &&& post.client_nodes == pre.client_nodes
        &&& post.links == pre.links
    } else {
        post == pre
    }
}

/// A `global` event for a client: parse and insert, or drop.
pub open spec fn client_event(pre: Store, post: Store, id: u32, p: &Props) -> bool {
    if client_missing_prop(p) is None {
        &&& post.clients@.contains_key(id)
        &&& client_matches_props(post.clients@[id], p)
        &&& post.clients@ == pre.clients@.insert(id, post.clients@[id])
        &&& post.devices == pre.devices
        &&& post.device_nodes == pre.device_nodes
        &&& post.client_nodes == pre.client_nodes
        &&& post.links == pre.links
        &&& post.factories == pre.factories
    } else {
        post == pre
    }
}

/// The mirror together with the engine's event queue and the destroy
/// requests bound for the host.
pub struct PipewireRegistry {
    pub store: Store,
    pub events: Vec<EngineEvent>,
    pub destroy_requests: Vec<u32>,
}

impl PipewireRegistry {
    /// A fresh mirror with nothing observed and nothing queued.
    pub fn new() -> (r: PipewireRegistry)
        ensures
            r.store.wf(),
            r.store.devices@ == Map::<u32, RegistryDevice>::empty(),
            r.store.device_nodes@ == Map::<u32, RegistryDeviceNode>::empty(),
            r.store.clients@ == Map::<u32, RegistryClient>::empty(),
            r.store.client_nodes@ == Map::<u32, RegistryClientNode>::empty(),
            r.store.links@ == Map::<u32, RegistryLink>::empty(),
            r.store.factories@ == Map::<u32, RegistryFactory>::empty(),
            r.events@ == Seq::<EngineEvent>::empty(),
            r.destroy_requests@ == Seq::<u32>::empty(),
    {
        PipewireRegistry { store: Store::new(), events: Vec::new(), destroy_requests: Vec::new() }
    }

    /// Digests one host `global` event: dispatches on the object type,
    /// parses the props and updates the mirror; malformed observations
    /// are dropped silently.
    pub fn register_listener(&mut self, id: u32, object_type: &ObjectType, props: &Props)
        requires
            old(self).store.wf(),
        ensures
            final(self).store.wf(),
            final(self).destroy_requests == old(self).destroy_requests,
            match *object_type {
                ObjectType::Device => device_event(old(self).store, final(self).store, id, props)
                    && final(self).events == old(self).events,
                ObjectType::Node => node_event(old(self).store, final(self).store, id, props)
                    && final(self).events == old(self).events,
                ObjectType::Port => port_event(
                    old(self).store,
                    final(self).store,
                    old(self).events@,
                    final(self).events@,
                    id,
                    props,
                ),
                ObjectType::Link => link_event(
                    old(self).store,
                    final(self).store,
                    old(self).events@,
                    final(self).events@,
                    id,
                    props,
                ),
                ObjectType::Factory => factory_event(old(self).store, final(self).store, id, props)
                    && final(self).events == old(self).events,
                ObjectType::Client => client_event(old(self).store, final(self).store, id, props)
                    && final(self).events == old(self).events,
                _ => *final(self) == *old(self),
            },
    {
        match object_type {
            ObjectType::Device => {
                let device = RegistryDevice::from_props(props);
                self.store.devices.insert(id, device);
            },
            ObjectType::Node => {
                match RegistryDeviceNode::from_props(props) {
                    Ok(node) => {
                        let parent = node.parent_id;
                        if self.store.devices.contains_key(&parent) {
                            match self.store.devices.remove(&parent) {
                                Some(mut dev) => {
                                    dev.add_node(id);
                                    self.store.devices.insert(parent, dev);
                                    self.store.device_nodes.insert(id, node);
                                    proof {
                                        assert(self.store.devices@ =~= old(
                                            self,
                                        ).store.devices@.insert(parent, self.store.devices@[parent]));
                                        assert forall|k: u32| #[trigger]
                                            self.store.device_nodes@.contains_key(k) implies
                                            self.store.device_nodes@[k].in_ports.wf()
                                                && self.store.device_nodes@[k].out_ports.wf() by {
                                            if k != id {
                                                assert(old(self).store.device_nodes@.contains_key(
                                                    k,
                                                ));
                                            }
                                        }
                                    }
                                },
                                None => {},
                            }
                        }
                    },
                    Err(_) => {},
                }
                let ghost mid = self.store;
                match RegistryClientNode::from_props(props) {
                    Ok(node) => {
                        let parent = node.parent_id;
                        if self.store.clients.contains_key(&parent) {
                            match self.store.clients.remove(&parent) {
                                Some(mut cl) => {
                                    cl.add_node(id);
                                    self.store.clients.insert(parent, cl);
                                    self.store.client_nodes.insert(id, node);
                                    proof {
                                        assert(self.store.clients@ =~= old(
                                            self,
                                        ).store.clients@.insert(parent, self.store.clients@[parent]));
                                        assert forall|k: u32| #[trigger]
                                            self.store.client_nodes@.contains_key(k) implies
                                            self.store.client_nodes@[k].in_ports.wf()
                                                && self.store.client_nodes@[k].out_ports.wf() by {
                                            if k != id {
                                                assert(mid.client_nodes@.contains_key(k));
                                                assert(mid.client_nodes == old(
                                                    self,
                                                ).store.client_nodes);
                                            }
                                        }
                                    }
                                },
                                None => {},
                            }
                        }
                    },
                    Err(_) => {},
                }
            },
            ObjectType::Port => {
                self.register_port(id, props);
            },
            ObjectType::Link => {
                match RegistryLink::from_props(props) {
                    Ok(link) => {
                        let input_node = link.input_node;
                        let output_node = link.output_node;
                        self.store.links.insert(id, link);
                        self.events.push(EngineEvent::NodeLinksChanged(input_node));
                        self.events.push(EngineEvent::NodeLinksChanged(output_node));
                    },
                    Err(_) => {},
                }
            },
            ObjectType::Factory => {
                match RegistryFactory::from_props(props) {
                    Ok(factory) => {
                        self.store.factories.insert(id, factory);
                    },
                    Err(_) => {},
                }
            },
            ObjectType::Client => {
                match RegistryClient::from_props(props) {
                    Ok(client) => {
                        self.store.clients.insert(id, client);
                    },
                    Err(_) => {},
                }
            },
            _ => {},
        }
    }

    /// The port arm of the dispatch: all required properties must be
    /// present and the direction must be one the mirror tracks.
    fn register_port(&mut self, id: u32, props: &Props)
        requires
            old(self).store.wf(),
        ensures
            final(self).store.wf(),
            final(self).destroy_requests == old(self).destroy_requests,
            port_event(
                old(self).store,
                final(self).store,
                old(self).events@,
                final(self).events@,
                id,
                props,
            ),
    {
        let node_id_prop = props.get("node.id");
        let pid_prop = props.get("port.id");
        let name_prop = props.get("port.name");
        let channel_prop = props.get("audio.channel");
        let direction_prop = props.get("port.direction");
        if node_id_prop.is_none() || pid_prop.is_none() || name_prop.is_none()
            || channel_prop.is_none() || direction_prop.is_none() {
            return ;
        }
        let name = name_prop.unwrap();
        let channel = channel_prop.unwrap();
        let direction = {
            let d = direction_prop.unwrap();
            if str_eq(d.as_str(), "in") {
                Direction::In
            } else if str_eq(d.as_str(), "out") {
                Direction::Out
            } else {
                return ;
            }
        };
        let is_monitor = match props.get("port.monitor") {
            Some(monitor) => parse_bool_or_false(monitor.as_str()),
            None => false,
        };
        let port = RegistryPort::new(id, name.as_str(), channel.as_str(), is_monitor);
        let node_id = match parse_u32(node_id_prop.unwrap().as_str()) {
            Some(v) => v,
            None => {
                return ;
            },
        };
        let port_id = match parse_u32(pid_prop.unwrap().as_str()) {
            Some(v) => v,
            None => {
                return ;
            },
        };
        if self.store.device_nodes.contains_key(&node_id) {
            match self.store.device_nodes.remove(&node_id) {
                Some(mut node) => {
                    node.add_port(id, direction, port);
                    self.store.device_nodes.insert(node_id, node);
                    self.events.push(EngineEvent::NodeReadinessChanged(node_id));
                    proof {
                        assert(self.store.device_nodes@ =~= old(
                            self,
                        ).store.device_nodes@.insert(node_id, self.store.device_nodes@[node_id]));
                        assert forall|k: u32| #[trigger]
                            self.store.device_nodes@.contains_key(k) implies
                            self.store.device_nodes@[k].in_ports.wf()
                                && self.store.device_nodes@[k].out_ports.wf() by {
                            if k != node_id {
                                assert(old(self).store.device_nodes@.contains_key(k));
                            }
                        }
                    }
                },
                None => {},
            }
            return ;
        }
        if self.store.client_nodes.contains_key(&node_id) {
            match self.store.client_nodes.remove(&node_id) {
                Some(mut node) => {
                    node.add_port(port_id, direction, port);
                    self.store.client_nodes.insert(node_id, node);
                    proof {
                        assert(self.store.client_nodes@ =~= old(
                            self,
                        ).store.client_nodes@.insert(node_id, self.store.client_nodes@[node_id]));
                        assert forall|k: u32| #[trigger]
                            self.store.client_nodes@.contains_key(k) implies
                            self.store.client_nodes@[k].in_ports.wf()
                                && self.store.client_nodes@[k].out_ports.wf() by {
                            if k != node_id {
                                assert(old(self).store.client_nodes@.contains_key(k));
                            }
                        }
                    }
                },
                None => {},
            }
        }
    }

    /// Digests one host `global_remove` event.
    pub fn registry_removal_listener(&mut self, id: u32)
        requires
            old(self).store.wf(),
        ensures
            final(self).store.wf(),
            store_removed(old(self).store, final(self).store, id),
            final(self).events == old(self).events,
            final(self).destroy_requests == old(self).destroy_requests,
    {
        self.store.remove_by_id(id);
    }

    /// Queues a request that the host destroy the given global.
    pub fn destroy_global(&mut self, id: u32)
        ensures
            final(self).destroy_requests@ == old(self).destroy_requests@.push(id),
            final(self).store == old(self).store,
            final(self).events == old(self).events,
    {
        self.destroy_requests.push(id);
    }
}

/// Lifts the entry-by-entry port strip of the client-node table to its
/// map view.
proof fn lemma_pointwise_client_nodes(
    pre: Seq<(u32, RegistryClientNode)>,
    post: Seq<(u32, RegistryClientNode)>,
    id: u32,
)
    requires
        seq_unique(pre),
        seq_unique(post),
        pre.len() == post.len(),
        forall|j: int|
            0 <= j < pre.len() ==> (#[trigger] post[j]).0 == pre[j].0 && client_node_stripped(
                pre[j].1,
                post[j].1,
                id,
            ),
    ensures
        forall|k: u32|
            seq_as_map(post).contains_key(k) == seq_as_map(pre).contains_key(k),
        forall|k: u32| #[trigger]
            seq_as_map(post).contains_key(k) ==> client_node_stripped(
                seq_as_map(pre)[k],
                seq_as_map(post)[k],
                id,
            ),
{
    assert forall|k: u32|
        seq_as_map(post).contains_key(k) == seq_as_map(pre).contains_key(k) by {
        if seq_contains_key(post, k) {
            let j: int = choose|j: int| 0 <= j < post.len() && post[j].0 == k;
            assert(pre[j].0 == k);
        }
        if seq_contains_key(pre, k) {
            let j: int = choose|j: int| 0 <= j < pre.len() && pre[j].0 == k;
            assert(post[j].0 == k);
        }
    }
    assert forall|k: u32| #[trigger] seq_as_map(post).contains_key(k) implies client_node_stripped(
        seq_as_map(pre)[k],
        seq_as_map(post)[k],
        id,
    ) by {
        let j: int = choose|j: int| 0 <= j < post.len() && post[j].0 == k;
        lemma_seq_index_view(post, j);
        lemma_seq_index_view(pre, j);
    }
}

} // verus!
