use chat_server::session::{ConnectionGate, Session, SessionRegistry, MAX_CONNECTIONS};
use chat_server::user::User;

fn session(id: u128, name: &str, channel: Option<&str>) -> Session {
    Session { id, identity: name.to_string(), current_channel: channel.map(|c| c.to_string()) }
}

#[test]
fn new_session_starts_in_general() {
    let a = Session::new(42, "alice".to_string());
    assert_eq!(a.id, 42);
    assert_eq!(a.identity, "alice");
    assert_eq!(a.current_channel.as_deref(), Some("general"));
}

#[test]
fn registry_insert_replace_remove() {
    let mut r = SessionRegistry::new();
    r.insert(session(1, "alice", Some("general")));
    r.insert(session(2, "bob", None));
    assert_eq!(r.len(), 2);
    r.insert(session(1, "alice", Some("random")));
    assert_eq!(r.len(), 2);
    assert_eq!(r.get_current_channel(1).as_deref(), Some("random"));
    assert_eq!(r.get_current_channel(2), None);
    assert!(r.remove(1));
    assert!(!r.remove(1));
    assert!(!r.contains(1));
    assert_eq!(r.get_current_channel(1), None);
    assert_eq!(r.len(), 1);
}

#[test]
fn set_current_channel_on_missing_session_is_noop() {
    let mut r = SessionRegistry::new();
    r.set_current_channel(9, "general".to_string());
    assert_eq!(r.len(), 0);
    r.insert(session(3, "carol", None));
    r.set_current_channel(3, "gaming".to_string());
    assert_eq!(r.get_current_channel(3).as_deref(), Some("gaming"));
}

#[test]
fn snapshot_matches_members_minus_excluded() {
    let mut r = SessionRegistry::new();
    r.insert(session(1, "alice", Some("general")));
    r.insert(session(2, "bob", Some("general")));
    r.insert(session(3, "carol", Some("random")));
    r.insert(session(4, "alice", Some("general")));
    let members = vec!["alice".to_string(), "bob".to_string()];
    let mut all = r.snapshot_for(&members, None);
    all.sort();
    assert_eq!(all, vec![1, 2, 4]);
    let mut some = r.snapshot_for(&members, Some(2));
    some.sort();
    assert_eq!(some, vec![1, 4]);
    assert!(r.snapshot_for(&Vec::new(), None).is_empty());
}

#[test]
fn admission_bound_and_release() {
    let mut g = ConnectionGate::new(MAX_CONNECTIONS);
    for _ in 0..MAX_CONNECTIONS {
        assert!(g.can_accept_connection());
        assert!(g.increment_connection_count());
    }
    assert!(!g.can_accept_connection());
    assert!(!g.increment_connection_count());
    assert_eq!(g.active_connections(), MAX_CONNECTIONS);
    g.decrement_connection_count();
    assert!(g.can_accept_connection());
    assert!(g.increment_connection_count());
}

#[test]
fn release_never_goes_below_zero() {
    let mut g = ConnectionGate::new(2);
    g.decrement_connection_count();
    assert_eq!(g.active_connections(), 0);
    assert!(g.increment_connection_count());
    assert_eq!(g.active_connections(), 1);
}

#[test]
fn user_holds_name() {
    let u = User::new("alice".to_string(), String::new());
    assert_eq!(u.name, "alice");
    assert_eq!(u.password, "");
}
