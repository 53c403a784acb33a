//! The network layer of a node in a Raft cluster: node identities, the peer
//! registry, the bootstrap decision between running alone and forming a
//! cluster, the routing of consensus RPCs, and the latest metrics per node.

pub mod identity;
pub mod metrics;
pub mod network;
