use rustconn::detached_window::{
    detached_window_title, CloseMeaning, DetachedSessionWindow, DetachedWindowRegistry,
};

#[test]
fn window_title_names_the_connection_and_the_application() {
    assert_eq!(detached_window_title("prod-db"), "prod-db — RustConn");
}

#[test]
fn window_title_keeps_an_empty_connection_name_harmless() {
    assert_eq!(detached_window_title(""), " — RustConn");
}

#[test]
fn a_close_ends_the_session_unless_an_attach_was_begun() {
    let mut window = DetachedSessionWindow::new(1, 2, "prod-db", "SSH");
    assert_eq!(window.session_id(), 1);
    assert_eq!(window.connection_id(), 2);
    assert_eq!(window.session_title(), "prod-db");
    assert_eq!(window.protocol_name(), "SSH");
    assert_eq!(window.close_requested(), CloseMeaning::Teardown);
    window.set_session_title("prod-db-2");
    assert_eq!(window.session_title(), "prod-db-2");
    window.begin_attach();
    assert_eq!(window.close_requested(), CloseMeaning::Attached);
}

#[test]
fn the_registry_keeps_one_window_per_session() {
    let mut registry = DetachedWindowRegistry::new();
    registry.insert(DetachedSessionWindow::new(1, 10, "a", "SSH"));
    registry.insert(DetachedSessionWindow::new(2, 20, "b", "RDP"));
    registry.insert(DetachedSessionWindow::new(2, 20, "b2", "RDP"));
    assert_eq!(registry.count(), 2);
    assert!(registry.contains(1));
    assert!(!registry.contains(3));
    assert_eq!(registry.with_window(2, |w: &DetachedSessionWindow| w.session_title().to_owned()), Some("b2".to_owned()));
    assert_eq!(registry.with_window(3, |w: &DetachedSessionWindow| w.session_id()), None);
    assert_eq!(registry.take(1).map(|w| w.connection_id()), Some(10));
    assert!(registry.take(1).is_none());
    let closed = registry.close_all();
    assert_eq!(closed.len(), 1);
    assert_eq!(closed[0].session_id(), 2);
    assert_eq!(registry.count(), 0);
}
