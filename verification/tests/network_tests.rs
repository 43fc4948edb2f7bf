use civitasos::network::message::{BroadcastManager, MessageHandler, MessagePriority, MessageType, QueuedMessage};
use civitasos::network::node::{NodeManager, NodeStatus};
use civitasos::network::{NetworkConfig, NodeInfo};

#[test]
fn test_message_handler_basic() {
    let mut handler = MessageHandler::new(100, 5000);
    let msg = QueuedMessage::new(MessageType::Ping(12345), MessagePriority::Normal, Some("test_node".to_string()));
    assert!(handler.queue_message(msg).is_ok());

    let (high, normal, low) = handler.get_queue_depths();
    assert_eq!(normal, 1);
    assert_eq!(high, 0);
    assert_eq!(low, 0);

    let dequeued = handler.dequeue_next_message();
    assert!(dequeued.is_some());
    assert_eq!(dequeued.unwrap().message, MessageType::Ping(12345));
}

#[test]
fn test_message_priorities() {
    let mut handler = MessageHandler::new(100, 5000);
    handler.queue_message(QueuedMessage::new(MessageType::Ping(1), MessagePriority::Low, None)).unwrap();
    handler.queue_message(QueuedMessage::new(MessageType::Ping(2), MessagePriority::High, None)).unwrap();
    handler.queue_message(QueuedMessage::new(MessageType::Ping(3), MessagePriority::Normal, None)).unwrap();

    if let Some(msg) = handler.dequeue_next_message() {
        if let MessageType::Ping(val) = msg.message {
            assert_eq!(val, 2);
        }
    }
    if let Some(msg) = handler.dequeue_next_message() {
        if let MessageType::Ping(val) = msg.message {
            assert_eq!(val, 3);
        }
    }
    if let Some(msg) = handler.dequeue_next_message() {
        if let MessageType::Ping(val) = msg.message {
            assert_eq!(val, 1);
        }
    }
}

#[test]
fn test_broadcast_manager() {
    let mut broadcast_manager = BroadcastManager::new(10);
    broadcast_manager.add_peer("peer1".to_string());
    broadcast_manager.add_peer("peer2".to_string());
    broadcast_manager.add_peer("peer3".to_string());
    assert_eq!(broadcast_manager.get_peers().len(), 3);

    let broadcast_count = broadcast_manager.broadcast_message(MessageType::Ping(123), None);
    assert_eq!(broadcast_count, 3);
    assert_eq!(broadcast_manager.get_active_broadcasts_count(), 1);

    broadcast_manager.remove_peer("peer2");
    assert_eq!(broadcast_manager.get_peers().len(), 2);
}

fn node(id: &str, addr: &str, caps: &[&str]) -> NodeInfo {
    NodeInfo {
        id: id.to_string(),
        address: addr.to_string(),
        capabilities: caps.iter().map(|c| c.to_string()).collect(),
        version: "1.0.0".to_string(),
        last_seen: 0,
    }
}

#[test]
fn test_node_manager() {
    let mut node_manager = NodeManager::new();
    let node_info = node("node1", "127.0.0.1:8080", &["execution", "consensus"]);
    node_manager.register_node(node_info.clone());
    assert_eq!(node_manager.get_node("node1").unwrap().id, "node1");

    node_manager.update_node_status("node1", NodeStatus::Connected);
    assert_eq!(node_manager.get_node_status("node1"), Some(&NodeStatus::Connected));

    let stats = node_manager.get_statistics();
    assert_eq!(stats.total, 1);
    assert_eq!(stats.connected, 1);
    assert_eq!(stats.disconnected, 0);
    assert_eq!(stats.unreachable, 0);
}

#[test]
fn test_node_status_transitions() {
    let mut node_manager = NodeManager::new();
    node_manager.register_node(node("node2", "127.0.0.1:8081", &["governance"]));

    node_manager.update_node_status("node2", NodeStatus::Connecting);
    assert_eq!(node_manager.get_node_status("node2"), Some(&NodeStatus::Connecting));
    node_manager.update_node_status("node2", NodeStatus::Connected);
    assert_eq!(node_manager.get_node_status("node2"), Some(&NodeStatus::Connected));
    node_manager.update_node_status("node2", NodeStatus::Disconnected);
    assert_eq!(node_manager.get_node_status("node2"), Some(&NodeStatus::Disconnected));
    node_manager.update_node_status("node2", NodeStatus::Unreachable);
    assert_eq!(node_manager.get_node_status("node2"), Some(&NodeStatus::Unreachable));
}

#[test]
fn test_network_config_default() {
    let config = NetworkConfig::default();
    assert_eq!(config.listen_addr, "0.0.0.0:8080");
    assert_eq!(config.max_connections, 100);
    assert_eq!(config.network_id, 1);
}

#[test]
fn network_queue_expiry_and_capacity() {
    let mut handler = MessageHandler::new(2, 5000);
    handler.queue_message_at(QueuedMessage::new_at(MessageType::Ping(1), MessagePriority::Normal, None, 0), 0).unwrap();
    handler.queue_message_at(QueuedMessage::new_at(MessageType::Ping(2), MessagePriority::Normal, None, 0), 0).unwrap();
    handler.queue_message_at(QueuedMessage::new_at(MessageType::Ping(3), MessagePriority::Low, None, 0), 0).unwrap();
    assert_eq!(handler.get_queue_depths(), (0, 1, 1));
    assert_eq!(handler.get_stats().total_dropped, 1);
    let r = handler.queue_message_at(QueuedMessage::new_at(MessageType::Ping(4), MessagePriority::Critical, None, 0), 0);
    assert_eq!(r, Err("All queues at maximum capacity"));
    handler.queue_message_at(QueuedMessage::new_at(MessageType::Ping(5), MessagePriority::High, None, 6000), 6000).unwrap();
    assert_eq!(handler.get_queue_depths(), (1, 0, 0));
    let m = QueuedMessage::new_at(MessageType::Ping(6), MessagePriority::Low, None, 10);
    assert!(!m.is_expired_at(5000, 5010));
    assert!(m.is_expired_at(5000, 5011));
    assert_eq!(m.ttl, 10);
}

#[test]
fn network_processing_counts_successes_and_drops() {
    let mut handler = MessageHandler::new(10, 5000);
    for i in 0..4u64 {
        handler.queue_message_at(QueuedMessage::new_at(MessageType::Ping(i), MessagePriority::Normal, None, 0), 0).unwrap();
    }
    let n = handler.process_pending_messages_at(2, |m: QueuedMessage| matches!(m.message, MessageType::Ping(x) if x % 2 == 1), 1);
    assert_eq!(n, 2);
    let stats = handler.get_stats();
    assert_eq!(stats.total_processed, 2);
    assert_eq!(stats.total_dropped, 2);
    assert_eq!(stats.queue_sizes, (0, 0, 0));
    handler.purge_queues();
    assert_eq!(handler.get_queue_depths(), (0, 0, 0));
}

#[test]
fn network_broadcast_limits_and_duplicates() {
    let mut b = BroadcastManager::new(1);
    b.add_peer("p".to_string());
    b.add_peer("p".to_string());
    assert_eq!(b.get_peers().len(), 1);
    assert_eq!(b.broadcast_message_at(MessageType::Pong(1), Some(vec![]), 0), 0);
    assert_eq!(b.broadcast_message_at(MessageType::Pong(1), Some(vec!["x".to_string(), "y".to_string()]), 0), 2);
    assert_eq!(b.broadcast_message_at(MessageType::Pong(1), None, 0), 0);
    assert_eq!(b.get_active_broadcasts_count(), 1);
}

#[test]
fn network_connection_attempts_and_probes() {
    let mut m = NodeManager::new();
    m.register_node(node("n", "h:1", &[]));
    m.register_node(node("o", "h:2", &[]));
    m.mark_connection_attempt("n");
    m.mark_connection_attempt("n");
    assert_eq!(m.get_node_status("n"), Some(&NodeStatus::Disconnected));
    m.mark_connection_attempt("n");
    assert_eq!(m.get_node_status("n"), Some(&NodeStatus::Unreachable));
    assert!(!m.needs_health_check("n"));
    m.record_connectivity("n", true);
    assert_eq!(m.get_node_status("n"), Some(&NodeStatus::Unreachable));
    m.record_connectivity("o", true);
    assert_eq!(m.get_node_status("o"), Some(&NodeStatus::Connected));
    m.record_connectivity("o", false);
    assert_eq!(m.get_node_status("o"), Some(&NodeStatus::Disconnected));
    assert_eq!(m.get_reachable_nodes().len(), 1);
    assert_eq!(m.get_disconnected_nodes().len(), 1);
    assert_eq!(m.get_connected_nodes().len(), 0);
    assert_eq!(m.get_all_nodes().len(), 2);
    let stats = m.get_statistics();
    assert_eq!((stats.total, stats.disconnected, stats.unreachable), (2, 1, 1));
    assert_eq!(m.remove_node("o").unwrap().id, "o");
    assert!(m.get_node("o").is_none());
}
