use civitasos::network::discovery::NodeDiscovery;
use civitasos::{DiscoveryResponse, NodeInfo};

fn node(id: &str, port: u16, capabilities: &[&str]) -> NodeInfo {
    NodeInfo {
        id: id.to_string(),
        address: format!("127.0.0.1:{}", port),
        capabilities: capabilities.iter().map(|c| c.to_string()).collect(),
        version: "1.0.0".to_string(),
        last_seen: 0,
    }
}

fn ids(nodes: &[&NodeInfo]) -> Vec<String> {
    nodes.iter().map(|n| n.id.clone()).collect()
}

#[test]
fn test_node_discovery_creation() {
    let boot_nodes = vec!["127.0.0.1:8080".to_string()];
    let discovery = NodeDiscovery::new("test_node".to_string(), 1, boot_nodes);

    assert_eq!(discovery.node_id, "test_node");
    assert_eq!(discovery.network_id, 1);
    assert_eq!(discovery.boot_nodes.len(), 1);
}

#[test]
fn test_add_node_if_new() {
    let mut discovery = NodeDiscovery::new("test_node".to_string(), 1, vec![]);
    let node_info = node("new_node", 8081, &["execution"]);

    let added = discovery.add_node_if_new(node_info.clone(), 0);
    assert!(added);

    let added_again = discovery.add_node_if_new(node_info, 0);
    assert!(!added_again);

    let known_nodes = discovery.get_known_nodes();
    assert_eq!(known_nodes.len(), 1);
    assert_eq!(known_nodes[0].id, "new_node");
}

#[test]
fn test_blacklisting() {
    let mut discovery = NodeDiscovery::new("test_node".to_string(), 1, vec![]);
    let node_info = node("bad_node", 8082, &["execution"]);

    let added = discovery.add_node_if_new(node_info.clone(), 0);
    assert!(added);

    discovery.blacklist_node("bad_node".to_string());

    let added_after_blacklist = discovery.add_node_if_new(node_info, 0);
    assert!(!added_after_blacklist);

    let stats = discovery.get_stats(0);
    assert_eq!(stats.known_nodes, 1);
    assert_eq!(stats.blacklisted, 1);
}

#[test]
fn test_capabilities_filter() {
    let mut discovery = NodeDiscovery::new("test_node".to_string(), 1, vec![]);
    discovery.add_node_if_new(node("node_with_exec", 8083, &["execution", "storage"]), 0);
    discovery.add_node_if_new(node("node_with_consensus", 8084, &["consensus", "governance"]), 0);

    let exec_nodes = discovery.get_nodes_by_capability("execution");
    assert_eq!(exec_nodes.len(), 1);
    assert_eq!(exec_nodes[0].id, "node_with_exec");

    let consensus_nodes = discovery.get_nodes_by_capability("consensus");
    assert_eq!(consensus_nodes.len(), 1);
    assert_eq!(consensus_nodes[0].id, "node_with_consensus");
}

#[test]
fn discovery_defaults_and_boot_nodes() {
    let mut d = NodeDiscovery::new("me".to_string(), 7, vec![]);
    assert_eq!(d.capabilities, vec!["execution", "consensus", "governance", "state"]);
    assert_eq!(d.max_known_nodes, 1000);
    for i in 0..12 {
        d.add_boot_node(format!("10.0.0.{}:9000", i));
    }
    assert_eq!(d.get_boot_nodes().len(), 10);
    d.add_boot_node("10.0.0.1:9000".to_string());
    assert_eq!(d.get_boot_nodes().len(), 10);
    let mut e = NodeDiscovery::new("me".to_string(), 7, vec!["a:1".to_string()]);
    e.add_boot_node("a:1".to_string());
    assert_eq!(e.get_boot_nodes(), &["a:1".to_string()]);
}

#[test]
fn discovery_schedule() {
    let mut d = NodeDiscovery::new("me".to_string(), 1, vec![]);
    assert!(d.should_run_discovery(0));
    d.mark_discovery_run(100);
    assert!(!d.should_run_discovery(130));
    assert!(d.should_run_discovery(131));
    assert_eq!(d.get_stats(150).last_discovery, Some(50));
}

#[test]
fn discovery_eligibility_and_random_choice() {
    let mut d = NodeDiscovery::new("me".to_string(), 1, vec![]);
    for (i, id) in ["a", "b", "c", "d"].iter().enumerate() {
        d.add_node_if_new(node(id, 9000 + i as u16, &[]), 0);
    }
    d.update_recent_contact("a".to_string(), 100);
    d.update_recent_contact("b".to_string(), 10);
    d.blacklist_node("c".to_string());
    // At 120, "a" was contacted 20 s ago; "b" 110 s ago; "c" is blacklisted.
    assert_eq!(ids(&d.eligible_nodes(120)), vec!["b", "d"]);
    let picked = d.get_random_nodes(1, 120);
    assert_eq!(picked.len(), 1);
    assert!(picked[0].id == "b" || picked[0].id == "d");
    let mut all = ids(&d.get_random_nodes(5, 120));
    all.sort();
    assert_eq!(all, vec!["b", "d"]);
    d.unblacklist_node("c");
    assert_eq!(ids(&d.eligible_nodes(120)), vec!["b", "c", "d"]);
}

#[test]
fn discovery_evicts_the_stalest() {
    let mut d = NodeDiscovery::new("me".to_string(), 1, vec![]);
    d.max_known_nodes = 4;
    for (i, id) in ["a", "b", "c", "d"].iter().enumerate() {
        assert!(d.add_node_if_new(node(id, 9000 + i as u16, &[]), 0));
        d.update_recent_contact(id.to_string(), 100 + i as u64);
    }
    // Full: the two contacted longest ago ("a", "b") go before "e" comes in.
    assert!(d.add_node_if_new(node("e", 9100, &[]), 200));
    assert_eq!(ids(&d.get_known_nodes()), vec!["c", "d", "e"]);
    // A node never contacted is the stalest of all.
    let mut f = NodeDiscovery::new("me".to_string(), 1, vec![]);
    f.max_known_nodes = 2;
    f.add_node_if_new(node("x", 1, &[]), 0);
    f.add_node_if_new(node("y", 2, &[]), 0);
    f.update_recent_contact("x".to_string(), 0);
    f.evict_oldest_nodes(1_000_000);
    assert_eq!(ids(&f.get_known_nodes()), vec!["x"]);
}

#[test]
fn discovery_absorbs_responses() {
    let mut d = NodeDiscovery::new("me".to_string(), 1, vec![]);
    d.blacklist_node("m2".to_string());
    d.add_node_if_new(node("m3", 3, &[]), 0);
    let response = DiscoveryResponse {
        nodes: vec![node("m1", 1, &["execution"]), node("m2", 2, &[]), node("m3", 3, &[]), node("m4", 4, &[])],
        timestamp: 500,
    };
    let added = d.absorb_response(response, 600);
    assert_eq!(added, vec!["m1".to_string(), "m4".to_string()]);
    let known = d.get_known_nodes();
    assert_eq!(ids(&known), vec!["m3", "m1", "m4"]);
    assert_eq!(known[1].last_seen, 500);
}
