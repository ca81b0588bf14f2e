use llamagpt::message::Role;
use llamagpt::session::ChatSession;

#[test]
fn save_then_load_reconstructs_the_same_messages_in_order() {
    let mut session = ChatSession::new(String::from("trip"));
    session.add_message(Role::User, String::from("first question"), 11);
    session.add_message(Role::Assistant, String::from("first answer"), 12);
    session.add_message(Role::User, String::from("déjà vu? ünïcödé 🦙"), 13);
    let bytes = session.save_history();

    let mut fresh = ChatSession::new(String::from("trip"));
    assert!(fresh.load_history(Some(bytes)));
    let history = fresh.history();
    assert_eq!(history.len(), 3);
    assert_eq!(history[0].role, Role::User);
    assert_eq!(history[0].content, String::from("first question"));
    assert_eq!(history[0].timestamp, 11);
    assert_eq!(history[1].role, Role::Assistant);
    assert_eq!(history[1].content, String::from("first answer"));
    assert_eq!(history[1].timestamp, 12);
    assert_eq!(history[2].role, Role::User);
    assert_eq!(history[2].content, String::from("déjà vu? ünïcödé 🦙"));
    assert_eq!(history[2].timestamp, 13);
}

#[test]
fn empty_history_round_trips() {
    let session = ChatSession::new(String::from("empty"));
    let bytes = session.save_history();
    assert_eq!(bytes.len(), 0);
    let mut fresh = ChatSession::new(String::from("empty"));
    assert!(fresh.load_history(Some(bytes)));
    assert_eq!(fresh.history().len(), 0);
}

#[test]
fn absent_store_initializes_an_empty_history() {
    let mut session = ChatSession::new(String::from("new"));
    assert!(session.load_history(None));
    assert_eq!(session.history().len(), 0);
}

#[test]
fn corrupted_store_degrades_to_empty_history() {
    let mut session = ChatSession::new(String::from("bad"));
    let garbage = vec![9u8, 99, 250, 3, 7];
    assert!(!session.load_history(Some(garbage)));
    assert_eq!(session.history().len(), 0);
    // The session stays fully usable after the degraded load.
    session.add_message(Role::User, String::from("still here"), 1);
    assert_eq!(session.history().len(), 1);
}

#[test]
fn truncated_store_is_rejected_not_misread() {
    let mut session = ChatSession::new(String::from("trunc"));
    session.add_message(Role::User, String::from("hello"), 5);
    let mut bytes = session.save_history();
    bytes.pop();
    let mut fresh = ChatSession::new(String::from("trunc"));
    assert!(!fresh.load_history(Some(bytes)));
    assert_eq!(fresh.history().len(), 0);
}

#[test]
fn add_message_appends_without_reordering() {
    let mut session = ChatSession::new(String::from("order"));
    for i in 0..10u64 {
        let role = if i % 2 == 0 { Role::User } else { Role::Assistant };
        session.add_message(role, format!("line {}", i), i);
    }
    let history = session.history();
    assert_eq!(history.len(), 10);
    for i in 0..10usize {
        assert_eq!(history[i].content, format!("line {}", i));
        assert_eq!(history[i].timestamp, i as u64);
    }
}

#[test]
fn reload_replaces_rather_than_appends() {
    let mut session = ChatSession::new(String::from("reload"));
    session.add_message(Role::User, String::from("a"), 1);
    let bytes = session.save_history();
    session.add_message(Role::User, String::from("b"), 2);
    assert!(session.load_history(Some(bytes)));
    assert_eq!(session.history().len(), 1);
    assert_eq!(session.history()[0].content, String::from("a"));
}
