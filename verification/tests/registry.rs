use ws_gateway::session_manager::SessionManager;

#[test]
fn registry_starts_empty() {
    let manager: SessionManager<u32> = SessionManager::new();
    assert!(!manager.is_session_exists("c1"));
    assert!(manager.get_session("c1").is_none());
}

#[test]
fn registry_register_then_lookup() {
    let mut manager: SessionManager<u32> = SessionManager::new();
    manager.add_session("c1".to_string(), 7);
    manager.add_session("c2".to_string(), 9);
    assert!(manager.is_session_exists("c1"));
    assert_eq!(manager.get_session("c1"), Some(&7));
    assert_eq!(manager.get_session("c2"), Some(&9));
    assert!(manager.get_session("c3").is_none());
}

#[test]
fn registry_register_twice_replaces_handle() {
    let mut manager: SessionManager<u32> = SessionManager::new();
    manager.add_session("c1".to_string(), 7);
    manager.add_session("c1".to_string(), 8);
    assert_eq!(manager.get_session("c1"), Some(&8));
    manager.remove_session("c1");
    assert!(!manager.is_session_exists("c1"));
}

#[test]
fn registry_unregister_leaves_others() {
    let mut manager: SessionManager<u32> = SessionManager::new();
    manager.add_session("c1".to_string(), 1);
    manager.add_session("c2".to_string(), 2);
    manager.add_session("c3".to_string(), 3);
    manager.remove_session("c2");
    manager.remove_session("absent");
    assert_eq!(manager.get_session("c1"), Some(&1));
    assert!(manager.get_session("c2").is_none());
    assert_eq!(manager.get_session("c3"), Some(&3));
}
