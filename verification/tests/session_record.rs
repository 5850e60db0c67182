use ws_gateway::app_node::{AppNode, SessionUser};
use ws_gateway::session_manager::SessionManager;

fn node(ip: &str, port: u16, session_id: &str) -> AppNode {
    AppNode::new(ip.to_string(), port, session_id.to_string())
}

fn registry(ids: &[&str]) -> SessionManager<u32> {
    let mut manager = SessionManager::new();
    for (i, id) in ids.iter().enumerate() {
        manager.add_session(id.to_string(), i as u32);
    }
    manager
}

#[test]
fn app_node_new_keeps_fields() {
    let n = AppNode::new("10.0.0.1".to_string(), 8080, "c1".to_string());
    assert_eq!(n.ip, "10.0.0.1");
    assert_eq!(n.port, 8080);
    assert_eq!(n.session_id, "c1");
}

#[test]
fn app_node_clone_is_equal() {
    let n = node("10.0.0.1", 8080, "c1");
    assert_eq!(n.clone(), n);
}

#[test]
fn app_node_is_on_compares_ip_and_port() {
    let n = node("10.0.0.1", 8080, "c1");
    assert!(n.is_on(&"10.0.0.1".to_string(), 8080));
    assert!(!n.is_on(&"10.0.0.1".to_string(), 8081));
    assert!(!n.is_on(&"10.0.0.2".to_string(), 8080));
}

#[test]
fn session_user_new_keeps_nodes() {
    let record = SessionUser::new(vec![node("a", 1, "c1"), node("b", 2, "c2")]);
    assert_eq!(record.nodes, vec![node("a", 1, "c1"), node("b", 2, "c2")]);
}

#[test]
fn add_node_appends_at_end() {
    let mut record = SessionUser::new(vec![node("a", 1, "c1")]);
    record.add_node(node("b", 2, "c2"));
    assert_eq!(record.nodes, vec![node("a", 1, "c1"), node("b", 2, "c2")]);
}

#[test]
fn cleanup_drops_only_stale_local_entries() {
    let manager = registry(&["live1", "live2"]);
    let mut record = SessionUser::new(vec![
        node("10.0.0.1", 8080, "dead1"),
        node("10.0.0.1", 8080, "live1"),
        node("10.0.0.2", 8080, "dead-but-remote"),
        node("10.0.0.1", 9090, "other-port"),
        node("10.0.0.1", 8080, "dead2"),
        node("10.0.0.1", 8080, "live2"),
    ]);
    let changed = record.cleanup_stale_nodes(&"10.0.0.1".to_string(), 8080, &manager);
    assert!(changed);
    assert_eq!(
        record.nodes,
        vec![
            node("10.0.0.1", 8080, "live1"),
            node("10.0.0.2", 8080, "dead-but-remote"),
            node("10.0.0.1", 9090, "other-port"),
            node("10.0.0.1", 8080, "live2"),
        ]
    );
}

#[test]
fn cleanup_without_stale_entries_changes_nothing() {
    let manager = registry(&["live1"]);
    let mut record =
        SessionUser::new(vec![node("10.0.0.1", 8080, "live1"), node("10.0.0.2", 8080, "x")]);
    let changed = record.cleanup_stale_nodes(&"10.0.0.1".to_string(), 8080, &manager);
    assert!(!changed);
    assert_eq!(record.nodes, vec![node("10.0.0.1", 8080, "live1"), node("10.0.0.2", 8080, "x")]);
}

#[test]
fn cleanup_twice_is_the_same_as_once() {
    let manager = registry(&["live1"]);
    let mut record =
        SessionUser::new(vec![node("10.0.0.1", 8080, "dead"), node("10.0.0.1", 8080, "live1")]);
    assert!(record.cleanup_stale_nodes(&"10.0.0.1".to_string(), 8080, &manager));
    let once = record.nodes.clone();
    assert!(!record.cleanup_stale_nodes(&"10.0.0.1".to_string(), 8080, &manager));
    assert_eq!(record.nodes, once);
}

#[test]
fn cleanup_of_empty_record() {
    let manager = registry(&[]);
    let mut record = SessionUser::new(vec![]);
    assert!(!record.cleanup_stale_nodes(&"10.0.0.1".to_string(), 8080, &manager));
    assert!(record.nodes.is_empty());
}

#[test]
fn cleanup_can_empty_a_record() {
    let manager = registry(&[]);
    let mut record =
        SessionUser::new(vec![node("10.0.0.1", 8080, "d1"), node("10.0.0.1", 8080, "d2")]);
    assert!(record.cleanup_stale_nodes(&"10.0.0.1".to_string(), 8080, &manager));
    assert!(record.nodes.is_empty());
}

#[test]
fn remove_session_drops_first_match_only() {
    let mut record = SessionUser::new(vec![
        node("a", 1, "c1"),
        node("b", 2, "c2"),
        node("c", 3, "c1"),
    ]);
    assert!(record.remove_session(&"c1".to_string()));
    assert_eq!(record.nodes, vec![node("b", 2, "c2"), node("c", 3, "c1")]);
}

#[test]
fn remove_session_of_unknown_connection() {
    let mut record = SessionUser::new(vec![node("a", 1, "c1")]);
    assert!(!record.remove_session(&"c9".to_string()));
    assert_eq!(record.nodes, vec![node("a", 1, "c1")]);
}

#[test]
fn remove_session_may_leave_empty_record() {
    let mut record = SessionUser::new(vec![node("a", 1, "c1")]);
    assert!(record.remove_session(&"c1".to_string()));
    assert!(record.nodes.is_empty());
}
