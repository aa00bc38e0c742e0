use graveyar_db::cluster::ClusterTopology;
use graveyar_db::pipeline::{route_append, select_self_addr, worker_index, Route};

#[test]
fn test_determinism() {
    let nodes = vec!["127.0.0.1:50051".to_string(), "127.0.0.1:50052".to_string()];
    let topology = ClusterTopology::new(nodes, 1);

    let owner_a = topology.get_owner("stream-1");
    let owner_b = topology.get_owner("stream-1");

    assert_eq!(owner_a, owner_b);
    assert_eq!(owner_a.epoch, 1);
}

#[test]
fn test_epoch_usage() {
    let nodes = vec!["A".to_string(), "B".to_string()];
    let t1 = ClusterTopology::new(nodes.clone(), 10);

    let o1 = t1.get_owner("stream-x");
    assert_eq!(o1.epoch, 10);

    let t2 = ClusterTopology::new(nodes, 20);
    let o2 = t2.get_owner("stream-x");
    assert_eq!(o2.epoch, 20);
    assert_eq!(o1.node_addr, o2.node_addr);
}

#[test]
fn test_distribution_change() {
    let nodes1 = vec!["A".to_string(), "B".to_string()];
    let t1 = ClusterTopology::new(nodes1, 1);

    let nodes2 = vec!["A".to_string(), "B".to_string(), "C".to_string()];
    let t2 = ClusterTopology::new(nodes2, 2);

    let o1 = t1.get_owner("stream-1");
    let o2 = t2.get_owner("stream-1");

    assert!(t1.get_all_nodes().contains(&o1.node_addr));
    assert!(t2.get_all_nodes().contains(&o2.node_addr));
    assert_ne!(o1.epoch, o2.epoch);
}

#[test]
fn nodes_are_sorted_on_construction() {
    let t = ClusterTopology::new(vec!["C".to_string(), "A".to_string(), "B".to_string()], 3);
    assert_eq!(t.get_all_nodes(), &["A".to_string(), "B".to_string(), "C".to_string()][..]);
    assert_eq!(t.epoch(), 3);
}

#[test]
fn owner_does_not_depend_on_input_order() {
    let t1 = ClusterTopology::new(vec!["A:50051".to_string(), "B:50051".to_string(), "C:50051".to_string()], 0);
    let t2 = ClusterTopology::new(vec!["C:50051".to_string(), "A:50051".to_string(), "B:50051".to_string()], 0);
    for s in ["x", "stream-1", "orders", "", "ünïcode"] {
        assert_eq!(t1.get_owner(s), t2.get_owner(s));
    }
}

#[test]
fn forwarded_request_is_never_forwarded_again() {
    let t = ClusterTopology::new(vec!["A:50051".to_string(), "B:50051".to_string()], 7);
    let owner = t.get_owner("x").node_addr;
    let other = if owner == "A:50051" { "B:50051" } else { "A:50051" };
    assert_eq!(route_append(&t, &owner, "x", true), Route::Local);
    assert_eq!(route_append(&t, &owner, "x", false), Route::Local);
    assert_eq!(route_append(&t, other, "x", false), Route::Forward { owner: owner.clone() });
    assert_eq!(
        route_append(&t, other, "x", true),
        Route::NotOwner { node: other.to_string(), owner: owner.clone(), epoch: 7 }
    );
}

#[test]
fn worker_index_is_stable_and_in_range() {
    let a = worker_index("stream-A", 32);
    assert!(a < 32);
    assert_eq!(a, worker_index("stream-A", 32));
    assert_eq!(worker_index("anything", 1), 0);
}

#[test]
fn self_address_selection() {
    let nodes = vec!["A:1".to_string(), "B:2".to_string()];
    assert_eq!(select_self_addr(&nodes, 1), "B:2");
    assert_eq!(select_self_addr(&nodes, 5), "A:1");
    assert_eq!(select_self_addr(&[], 0), "127.0.0.1:50051");
}
