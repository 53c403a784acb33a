use vstd::prelude::*;

use std::collections::HashMap;

use crate::identity::{derive_id, node_id_of};
use crate::metrics::{ascending, snapshot_for, MetricsSnapshot, MetricsStore};

verus! {

broadcast use vstd::std_specs::hash::group_hash_axioms;

/// Where the node stands in forming its cluster.
#[derive(Clone, Copy, Debug, PartialEq, Eq, Structural)]
pub enum NetworkState {
    Initialized,
    SingleNode,
    Cluster,
}

/// The kind of an RPC envelope exchanged with peer sessions.
#[derive(Clone, Copy, Debug, PartialEq, Eq, Structural)]
pub enum MsgTypes {
    AppendEntriesRequest,
    AppendEntriesResponse,
    VoteRequest,
    VoteResponse,
    InstallSnapshotRequest,
    InstallSnapshotResponse,
}

/// An inbound RPC from a peer session: its kind and its serialized body.
pub struct SendToRaft(pub MsgTypes, pub String);

/// A peer session announcing itself once its handshake completed.
pub struct PeerConnected(pub u64);

/// What to do with an inbound RPC.
#[derive(Clone, Copy, Debug, PartialEq, Eq, Structural)]
pub enum InboundRoute {
    /// Decode the body as this kind's request and hand it to the engine.
    Forward(MsgTypes),
    /// A consensus RPC arrived before any engine exists: answer with an empty success.
    EngineUnavailable,
    /// Not one of the consensus requests: answer with an empty success.
    Unrecognized,
}

/// What the settle timer's expiry decided.
pub enum SettleDecision {
    /// The bootstrap decision had already been taken: nothing to do.
    AlreadySettled,
    /// Too few peers connected: the node runs on its own.
    SingleNode,
    /// Build the consensus engine with these members and initialize it with them.
    Cluster(Vec<u64>),
}

/// An outbound RPC named a destination that is not in the peer registry.
#[derive(Clone, Copy, Debug, PartialEq, Eq, Structural)]
pub struct RoutingError {
    pub target: u64,
}

pub open spec fn is_consensus_request(kind: MsgTypes) -> bool {
    kind == MsgTypes::AppendEntriesRequest || kind == MsgTypes::VoteRequest || kind
        == MsgTypes::InstallSnapshotRequest
}

impl InboundRoute {
    /// Whether the caller is answered at once with an empty success.
    pub open spec fn spec_is_empty_success(self) -> bool {
        !(self is Forward)
    }

    pub fn is_empty_success(&self) -> (r: bool)
        ensures
            r == self.spec_is_empty_success(),
    {
        match self {
            InboundRoute::Forward(_) => false,
            _ => true,
        }
    }
}

/// The abstract state of a node's network layer.
pub struct NetworkView {
    pub id: u64,
    pub address: Option<Seq<char>>,
    pub peers: Seq<Seq<char>>,
    /// The peer registry: the address registered under each id.
    pub nodes: Map<u64, Seq<char>>,
    /// Ids announced as connected, in order of arrival, self first once started.
    pub connected: Seq<u64>,
    pub state: NetworkState,
    /// The membership the consensus engine was built with, once it exists.
    pub members: Option<Seq<u64>>,
    /// The latest metrics snapshot of each node, in ascending order of id.
    pub metrics: Seq<MetricsSnapshot>,
}

/// The registry after registering each of `peers` in turn, skipping `own`;
/// a later address overwrites an earlier one with the same id.
pub open spec fn registered(
    nodes: Map<u64, Seq<char>>,
    peers: Seq<Seq<char>>,
    own: Seq<char>,
) -> Map<u64, Seq<char>>
    decreases peers.len(),
{
    if peers.len() == 0 {
        nodes
    } else {
        let prev = registered(nodes, peers.drop_last(), own);
        let p = peers.last();
        if p == own {
            prev
        } else {
            prev.insert(node_id_of(p), p)
        }
    }
}

/// The network layer of one node: peer registry, connected peers and the
/// bootstrap decision.
pub struct Network {
    id: u64,
    address: Option<String>,
    peers: Vec<String>,
    nodes: HashMap<u64, String>,
    nodes_connected: Vec<u64>,
    phase: Phase,
    metrics: MetricsStore,
}

/// The bootstrap state, with the engine's membership once the cluster formed.
enum Phase {
    Initialized,
    SingleNode,
    Cluster(Vec<u64>),
}

impl View for Network {
    type V = NetworkView;

    closed spec fn view(&self) -> NetworkView {
        NetworkView {
            id: self.id,
            address: match self.address {
                Some(a) => Some(a@),
                None => None,
            },
            peers: self.peers@.map_values(|p: String| p@),
            nodes: self.nodes@.map_values(|a: String| a@),
            connected: self.nodes_connected@,
            state: match self.phase {
                Phase::Initialized => NetworkState::Initialized,
                Phase::SingleNode => NetworkState::SingleNode,
                Phase::Cluster(_) => NetworkState::Cluster,
            },
            members: match self.phase {
                Phase::Cluster(m) => Some(m@),
                _ => None,
            },
            metrics: self.metrics@,
        }
    }
}

impl Network {
    pub fn new() -> (r: Network)
        ensures
            r@.id == 0,
            r@.address is None,
            r@.peers == Seq::<Seq<char>>::empty(),
            r@.nodes == Map::<u64, Seq<char>>::empty(),
            r@.connected == Seq::<u64>::empty(),
            r@.state == NetworkState::Initialized,
            r@.members is None,
            r@.metrics == Seq::<MetricsSnapshot>::empty(),
    {
        let r = Network {
            id: 0,
            address: None,
            peers: Vec::new(),
            nodes: HashMap::new(),
            nodes_connected: Vec::new(),
            phase: Phase::Initialized,
            metrics: MetricsStore::new(),
        };
        proof {
            assert(r@.peers =~= Seq::<Seq<char>>::empty());
            assert(r@.nodes =~= Map::<u64, Seq<char>>::empty());
        }
        r
    }

    /// Appends the configured peer addresses.
    pub fn peers(&mut self, peers: Vec<&str>)
        ensures
            final(self)@ == (NetworkView {
                peers: old(self)@.peers + peers@.map_values(|p: &str| p@),
                ..old(self)@
            }),
    {
        let ghost start = self@;
        let mut i: usize = 0;
        while i < peers.len()
            invariant
                0 <= i <= peers@.len(),
                self@ == (NetworkView {
                    peers: start.peers + peers@.subrange(0, i as int).map_values(|p: &str| p@),
                    ..start
                }),
            decreases peers@.len() - i,
        {
            let owned = peers[i].to_owned();
            let ghost before = self@;
            self.peers.push(owned);
            proof {
                assert(self@.peers =~= before.peers.push(peers@[i as int]@));
                assert(peers@.subrange(0, i + 1).map_values(|p: &str| p@) =~= peers@.subrange(
                    0,
                    i as int,
                ).map_values(|p: &str| p@).push(peers@[i as int]@));
                assert(self@.peers =~= start.peers + peers@.subrange(0, i + 1).map_values(|p: &str| p@));
            }
            i = i + 1;
        }
        proof {
            assert(peers@.subrange(0, i as int) =~= peers@);
        }
    }

    /// Records the registry entry for a peer address, under the id derived
    /// from it; an earlier entry with that id is overwritten.
    pub fn register_node(&mut self, peer_addr: &str)
        ensures
            final(self)@ == (NetworkView {
                nodes: old(self)@.nodes.insert(node_id_of(peer_addr@), peer_addr@),
                ..old(self)@
            }),
    {
        let id = derive_id(peer_addr);
        self.nodes.insert(id, peer_addr.to_owned());
        proof {
            assert(self@.nodes =~= old(self)@.nodes.insert(node_id_of(peer_addr@), peer_addr@));
        }
    }

    /// The address registered under `id`, if any.
    pub fn get_node(&self, id: u64) -> (r: Option<&String>)
        ensures
            match r {
                Some(a) => self@.nodes.contains_key(id) && a@ == self@.nodes[id],
                None => !self@.nodes.contains_key(id),
            },
    {
        self.nodes.get(&id)
    }

    /// Sets the address this node listens on, and derives its id from it.
    pub fn listen(&mut self, address: &str)
        ensures
            final(self)@ == (NetworkView {
                id: node_id_of(address@),
                address: Some(address@),
                ..old(self)@
            }),
    {
        self.address = Some(address.to_owned());
        self.id = derive_id(address);
    }

    /// Starts the node: seeds the connected list with its own id and registers
    /// every configured peer but itself.
    pub fn started(&mut self)
        requires
            old(self)@.address is Some,
        ensures
            final(self)@ == (NetworkView {
                connected: old(self)@.connected.push(old(self)@.id),
                nodes: registered(old(self)@.nodes, old(self)@.peers, old(self)@.address->0),
                ..old(self)@
            }),
    {
        let network_address = match &self.address {
            Some(a) => a.clone(),
            None => String::new(),
        };
        self.nodes_connected.push(self.id);
        let ghost start = self@;
        let ghost own = network_address@;
        let mut i: usize = 0;
        while i < self.peers.len()
            invariant
                0 <= i <= self@.peers.len(),
                own == start.address->0,
                network_address@ == own,
                self@ == (NetworkView {
                    nodes: registered(start.nodes, start.peers.subrange(0, i as int), own),
                    ..start
                }),
            decreases self@.peers.len() - i,
        {
            let peer = self.peers[i].clone();
            proof {
                assert(start.peers.subrange(0, i + 1).drop_last() =~= start.peers.subrange(0, i as int));
                assert(start.peers.subrange(0, i + 1).last() == peer@);
            }
            let same = peer == network_address;
            if !same {
                self.register_node(peer.as_str());
            }
            i = i + 1;
        }
        proof {
            assert(start.peers.subrange(0, i as int) =~= start.peers);
        }
    }

    /// The settle window has elapsed: decides once between running alone and
    /// forming a cluster of the peers connected so far, self included.
    pub fn settle(&mut self) -> (r: SettleDecision)
        ensures
            old(self)@.state != NetworkState::Initialized ==> r is AlreadySettled && final(self)@
                == old(self)@,
            old(self)@.state == NetworkState::Initialized && old(self)@.connected.len() > 1 ==> {
                &&& final(self)@ == (NetworkView {
                    state: NetworkState::Cluster,
                    members: Some(old(self)@.connected),
                    ..old(self)@
                })
                &&& r matches SettleDecision::Cluster(m) && m@ == old(self)@.connected
            },
            old(self)@.state == NetworkState::Initialized && old(self)@.connected.len() <= 1 ==> {
                &&& final(self)@ == (NetworkView { state: NetworkState::SingleNode, ..old(self)@ })
                &&& r is SingleNode
            },
    {
        match self.phase {
            Phase::Initialized => {},
            _ => {
                return SettleDecision::AlreadySettled;
            },
        }
        if self.nodes_connected.len() > 1 {
            self.phase = Phase::Cluster(self.nodes_connected.clone());
            SettleDecision::Cluster(self.nodes_connected.clone())
        } else {
            self.phase = Phase::SingleNode;
            SettleDecision::SingleNode
        }
    }

    /// A peer session completed its handshake: its id joins the connected list.
    pub fn peer_connected(&mut self, msg: PeerConnected)
        ensures
            final(self)@ == (NetworkView { connected: old(self)@.connected.push(msg.0), ..old(self)@ }),
    {
        self.nodes_connected.push(msg.0);
    }

    /// Decides how an inbound RPC is answered.
    pub fn route_inbound(&self, msg: &SendToRaft) -> (r: InboundRoute)
        ensures
            !is_consensus_request(msg.0) ==> r == InboundRoute::Unrecognized,
            is_consensus_request(msg.0) && self@.members is None ==> r
                == InboundRoute::EngineUnavailable,
            is_consensus_request(msg.0) && self@.members is Some ==> r == InboundRoute::Forward(
                msg.0,
            ),
    {
        match msg.0 {
            MsgTypes::AppendEntriesRequest | MsgTypes::VoteRequest
            | MsgTypes::InstallSnapshotRequest => {
                match self.phase {
                    Phase::Cluster(_) => InboundRoute::Forward(msg.0),
                    _ => InboundRoute::EngineUnavailable,
                }
            },
            _ => InboundRoute::Unrecognized,
        }
    }

    /// Finds the peer an outbound RPC for `target` goes to.
    pub fn route_outbound(&self, target: u64) -> (r: Result<&String, RoutingError>)
        ensures
            match r {
                Ok(a) => self@.nodes.contains_key(target) && a@ == self@.nodes[target],
                Err(e) => !self@.nodes.contains_key(target) && e == (RoutingError { target }),
            },
    {
        match self.get_node(target) {
            Some(a) => Ok(a),
            None => Err(RoutingError { target }),
        }
    }

    /// Keeps `msg` as the latest snapshot of node `msg.id`.
    pub fn record_metrics(&mut self, msg: MetricsSnapshot)
        ensures
            ascending(final(self)@.metrics),
            forall|id: u64|
                #[trigger] snapshot_for(final(self)@.metrics, id) == if id == msg.id {
                    Some(msg)
                } else {
                    snapshot_for(old(self)@.metrics, id)
                },
            final(self)@ == (NetworkView { metrics: final(self)@.metrics, ..old(self)@ }),
    {
        self.metrics.upsert(msg);
    }

    /// The stored metrics.
    pub fn metrics(&self) -> (r: &MetricsStore)
        ensures
            r@ == self@.metrics,
            ascending(self@.metrics),
    {
        proof {
            use_type_invariant(&self.metrics);
        }
        &self.metrics
    }
}

/// Registering one address twice leaves the registry as registering it once:
/// a single entry, under the address's id.
pub proof fn lemma_register_twice(nodes: Map<u64, Seq<char>>, address: Seq<char>)
    ensures
        nodes.insert(node_id_of(address), address).insert(node_id_of(address), address)
            == nodes.insert(node_id_of(address), address),
{
    let once = nodes.insert(node_id_of(address), address);
    assert(once.insert(node_id_of(address), address) =~= once);
}

} // verus!
