use raft_network::identity::derive_id;
use raft_network::metrics::{MembershipConfig, MetricsSnapshot, MetricsStore, NodeRole};
use raft_network::network::{
    InboundRoute, MsgTypes, Network, NetworkState, PeerConnected, RoutingError, SendToRaft,
    SettleDecision,
};

fn snapshot(id: u64, term: u64) -> MetricsSnapshot {
    MetricsSnapshot {
        id,
        state: NodeRole::Follower,
        current_term: term,
        last_log_index: 0,
        last_applied: 0,
        current_leader: None,
        membership_config: MembershipConfig {
            is_in_joint_consensus: false,
            members: vec![id],
            non_voters: vec![],
            removing: vec![],
        },
    }
}

fn started_node(address: &str, peers: Vec<&str>) -> Network {
    let mut n = Network::new();
    n.listen(address);
    n.peers(peers);
    n.started();
    n
}

#[test]
fn derive_id_is_stable_across_calls() {
    let a = derive_id("127.0.0.1:8000");
    let b = derive_id(&String::from("127.0.0.1:8000"));
    assert_eq!(a, b);
}

#[test]
fn derive_id_differs_for_distinct_addresses() {
    assert_ne!(derive_id("127.0.0.1:8000"), derive_id("127.0.0.1:8001"));
    assert_ne!(derive_id(""), derive_id("127.0.0.1:8000"));
}

#[test]
fn listen_sets_the_local_id() {
    let mut n = Network::new();
    n.listen("10.0.0.1:9000");
    n.started();
    // The local address is never registered as a peer.
    assert!(n.get_node(derive_id("10.0.0.1:9000")).is_none());
}

#[test]
fn started_registers_every_peer_but_self() {
    let n = started_node("a:1", vec!["a:1", "b:2", "c:3"]);
    assert_eq!(n.get_node(derive_id("b:2")), Some(&String::from("b:2")));
    assert_eq!(n.get_node(derive_id("c:3")), Some(&String::from("c:3")));
    assert!(n.get_node(derive_id("a:1")).is_none());
}

#[test]
fn registering_twice_keeps_one_entry() {
    let mut n = Network::new();
    n.register_node("b:2");
    n.register_node("b:2");
    assert_eq!(n.get_node(derive_id("b:2")), Some(&String::from("b:2")));
    let n2 = started_node("a:1", vec!["b:2", "b:2"]);
    assert_eq!(n2.get_node(derive_id("b:2")), Some(&String::from("b:2")));
}

#[test]
fn three_nodes_form_a_cluster() {
    let addrs = ["a:1", "b:2", "c:3"];
    for (k, own) in addrs.iter().enumerate() {
        let others: Vec<&str> = addrs
            .iter()
            .enumerate()
            .filter(|(j, _)| *j != k)
            .map(|(_, a)| *a)
            .collect();
        let mut n = started_node(own, others.clone());
        for o in others.iter() {
            n.peer_connected(PeerConnected(derive_id(o)));
        }
        match n.settle() {
            SettleDecision::Cluster(members) => {
                let mut got = members.clone();
                got.sort();
                let mut want: Vec<u64> = addrs.iter().map(|a| derive_id(a)).collect();
                want.sort();
                assert_eq!(got, want);
                assert_eq!(members[0], derive_id(own));
            }
            _ => panic!("expected a cluster"),
        }
        let msg = SendToRaft(MsgTypes::VoteRequest, String::from("{}"));
        assert_eq!(n.route_inbound(&msg), InboundRoute::Forward(MsgTypes::VoteRequest));
    }
}

#[test]
fn node_without_peers_runs_alone() {
    let mut n = started_node("a:1", vec![]);
    assert!(matches!(n.settle(), SettleDecision::SingleNode));
    let msg = SendToRaft(MsgTypes::AppendEntriesRequest, String::from("{}"));
    let r = n.route_inbound(&msg);
    assert_eq!(r, InboundRoute::EngineUnavailable);
    assert!(r.is_empty_success());
}

#[test]
fn settle_fires_once() {
    let mut n = started_node("a:1", vec!["b:2"]);
    n.peer_connected(PeerConnected(derive_id("b:2")));
    assert!(matches!(n.settle(), SettleDecision::Cluster(_)));
    n.peer_connected(PeerConnected(derive_id("c:3")));
    assert!(matches!(n.settle(), SettleDecision::AlreadySettled));
}

#[test]
fn settle_with_unstarted_node_runs_alone() {
    let mut n = Network::new();
    assert!(matches!(n.settle(), SettleDecision::SingleNode));
    assert!(matches!(n.settle(), SettleDecision::AlreadySettled));
    let state = NetworkState::SingleNode;
    assert_eq!(state, NetworkState::SingleNode);
}

#[test]
fn unknown_kind_is_an_empty_success() {
    let mut n = started_node("a:1", vec!["b:2"]);
    let msg = SendToRaft(MsgTypes::VoteResponse, String::from("not json"));
    assert_eq!(n.route_inbound(&msg), InboundRoute::Unrecognized);
    n.peer_connected(PeerConnected(derive_id("b:2")));
    n.settle();
    let r = n.route_inbound(&msg);
    assert_eq!(r, InboundRoute::Unrecognized);
    assert!(r.is_empty_success());
    let fwd = n.route_inbound(&SendToRaft(MsgTypes::InstallSnapshotRequest, String::new()));
    assert!(!fwd.is_empty_success());
}

#[test]
fn outbound_to_registered_peer() {
    let n = started_node("a:1", vec!["b:2"]);
    assert_eq!(n.route_outbound(derive_id("b:2")), Ok(&String::from("b:2")));
}

#[test]
fn outbound_to_unregistered_peer_is_a_routing_error() {
    let n = started_node("a:1", vec!["b:2"]);
    let target = derive_id("z:9");
    assert_eq!(n.route_outbound(target), Err(RoutingError { target }));
}

#[test]
fn metrics_upsert_keeps_latest() {
    let mut n = Network::new();
    n.record_metrics(snapshot(1, 1));
    n.record_metrics(snapshot(1, 2));
    assert_eq!(n.metrics().len(), 1);
    assert_eq!(n.metrics().get(1).map(|m| m.current_term), Some(2));
}

#[test]
fn metrics_ids_ascend() {
    let mut s = MetricsStore::new();
    s.upsert(snapshot(5, 1));
    s.upsert(snapshot(2, 1));
    s.upsert(snapshot(9, 1));
    s.upsert(snapshot(2, 3));
    assert_eq!(s.ids(), vec![2, 5, 9]);
    assert_eq!(s.get(2).map(|m| m.current_term), Some(3));
    assert!(s.get(7).is_none());
    assert_eq!(MetricsStore::new().ids(), Vec::<u64>::new());
}
