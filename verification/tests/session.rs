use chat_assistant::session::{Role, Session, SessionManager};

#[test]
fn test_session() {
    let mut manager = SessionManager::new(10);
    let _id = manager.create_session("assistant");

    manager.add_message("user", "Hello");
    manager.add_message("assistant", "Hi there!");

    let messages = manager.get_messages();
    assert_eq!(messages.len(), 2);

    manager.clear_current();
    let messages = manager.get_messages();
    assert_eq!(messages.len(), 0);
}

#[test]
fn session_roles_and_context_window() {
    let mut s = Session::new("helper", 2);
    assert_eq!(s.persona, "helper");
    assert_eq!(s.created_at, s.last_active);
    s.add_message("user", "one");
    s.add_message("assistant", "two");
    s.add_message("system", "three");
    assert_eq!(s.messages.len(), 3);
    assert_eq!(s.messages[1].role, Role::Assistant);
    assert_eq!(s.messages[2].role, Role::User);
    let ctx = s.get_context();
    assert_eq!(ctx.len(), 2);
    assert_eq!(ctx[0].content, "two");
    assert_eq!(ctx[1].content, "three");
    s.clear();
    assert!(s.get_context().is_empty());
}

#[test]
fn zero_history_keeps_no_context() {
    let mut s = Session::new("p", 0);
    s.add_message("user", "x");
    assert!(s.get_context().is_empty());
}

#[test]
fn manager_switch_delete_and_list() {
    let mut m = SessionManager::new(5);
    assert_eq!(m.current_session_id(), None);
    assert!(m.get_messages().is_empty());
    m.add_message("user", "ignored");
    let a = m.create_session("alpha");
    let b = m.create_session("beta");
    assert_ne!(a, b);
    assert_eq!(m.current_session_id(), Some(b.clone()));
    assert!(!m.switch_session("missing"));
    assert_eq!(m.current_session_id(), Some(b.clone()));
    assert!(m.switch_session(&a));
    m.add_message("user", "hi a");
    assert_eq!(m.get_messages().len(), 1);
    assert_eq!(m.get_or_create_session("gamma"), a);
    let mut listed = m.list_sessions();
    listed.sort();
    assert_eq!(listed.len(), 2);
    let personas: Vec<&str> = listed.iter().map(|(_, p, _)| p.as_str()).collect();
    assert!(personas.contains(&"alpha") && personas.contains(&"beta"));
    m.delete_session(&a);
    assert_eq!(m.current_session_id(), None);
    assert_eq!(m.list_sessions().len(), 1);
    let c = m.get_or_create_session("gamma");
    assert_ne!(c, b);
    assert_eq!(m.current_session_id(), Some(c));
    assert_eq!(m.list_sessions().len(), 2);
    m.delete_session(&b);
    assert_eq!(m.list_sessions().len(), 1);
}

#[test]
fn session_ids_are_hyphenated_uuids() {
    let s = Session::new("p", 1);
    assert_eq!(s.id.len(), 36);
    assert_eq!(s.id.matches('-').count(), 4);
}

#[test]
fn session_keeps_its_creation_time() {
    let mut s = Session::new("assistant", 5);
    assert_eq!(s.created_at, s.last_active);
    let created = s.created_at;
    s.add_message("user", "hi");
    assert_eq!(s.created_at, created);
    assert!(s.last_active >= created);
    s.clear();
    assert_eq!(s.created_at, created);
    assert!(s.messages.is_empty());
}
