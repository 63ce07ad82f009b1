use chat_server::channel::{Channel, ChannelManager, ChannelType};

fn names(m: &ChannelManager) -> Vec<String> {
    m.list_channels().into_iter().map(|(n, _, _)| n).collect()
}

#[test]
fn defaults_are_seeded() {
    let m = ChannelManager::new();
    assert_eq!(m.config_file(), "channels.json");
    let list = m.list_channels();
    assert_eq!(list.len(), 4);
    assert_eq!(list[0], ("general".to_string(), ChannelType::Text, 0));
    assert_eq!(list[1], ("random".to_string(), ChannelType::Text, 0));
    assert_eq!(list[2], ("voice-lobby".to_string(), ChannelType::Voice, 0));
    assert_eq!(list[3], ("gaming".to_string(), ChannelType::Voice, 0));
    let c = ChannelManager::new_with_config("other.json");
    assert_eq!(c.config_file(), "other.json");
    assert_eq!(c.list_channels().len(), 4);
}

#[test]
fn create_twice_keeps_first_kind() {
    let mut m = ChannelManager::new();
    assert!(m.create_channel("lobby", ChannelType::Voice));
    assert!(!m.create_channel("lobby", ChannelType::Text));
    assert_eq!(m.get_channel("lobby").unwrap().channel_type, ChannelType::Voice);
    assert_eq!(m.list_channels().len(), 5);
}

#[test]
fn names_are_case_sensitive() {
    let mut m = ChannelManager::new();
    assert!(m.create_channel("General", ChannelType::Text));
    assert!(m.channel_exists("General"));
    assert!(m.channel_exists("general"));
    assert!(!m.channel_exists("GENERAL"));
}

#[test]
fn join_is_idempotent() {
    let mut m = ChannelManager::new();
    m.join_channel("general", "alice".to_string());
    m.join_channel("general", "alice".to_string());
    m.join_channel("general", "bob".to_string());
    assert_eq!(m.get_channel("general").unwrap().users, vec!["alice".to_string(), "bob".to_string()]);
}

#[test]
fn join_missing_channel_is_noop() {
    let mut m = ChannelManager::new();
    m.join_channel("nowhere", "alice".to_string());
    assert!(m.get_channel("nowhere").is_none());
    assert_eq!(names(&m).len(), 4);
}

#[test]
fn leave_removes_member() {
    let mut m = ChannelManager::new();
    m.join_channel("general", "alice".to_string());
    m.join_channel("general", "bob".to_string());
    m.leave_channel("general", "alice");
    assert_eq!(m.get_channel("general").unwrap().users, vec!["bob".to_string()]);
    m.leave_channel("general", "carol");
    m.leave_channel("nowhere", "bob");
    assert_eq!(m.get_channel("general").unwrap().users, vec!["bob".to_string()]);
}

#[test]
fn leave_all_clears_identity_everywhere() {
    let mut m = ChannelManager::new();
    m.join_channel("general", "alice".to_string());
    m.join_channel("random", "alice".to_string());
    m.join_channel("random", "bob".to_string());
    m.join_channel("gaming", "alice".to_string());
    m.leave_all_channels("alice");
    for (name, _, count) in m.list_channels() {
        let users = m.get_channel(&name).unwrap().users.clone();
        assert!(!users.contains(&"alice".to_string()));
        assert_eq!(users.len(), count);
    }
    assert_eq!(m.get_channel("random").unwrap().users, vec!["bob".to_string()]);
}

#[test]
fn list_counts_members() {
    let mut m = ChannelManager::new();
    m.join_channel("random", "a".to_string());
    m.join_channel("random", "b".to_string());
    let list = m.list_channels();
    assert_eq!(list[1], ("random".to_string(), ChannelType::Text, 2));
}

#[test]
fn from_channels_keeps_first_of_each_name() {
    let mut a = Channel::new("x".to_string(), ChannelType::Text);
    a.users.push("alice".to_string());
    let b = Channel::new("x".to_string(), ChannelType::Voice);
    let c = Channel::new("y".to_string(), ChannelType::Voice);
    let m = ChannelManager::from_channels("c.json", vec![a, b, c]);
    let list = m.list_channels();
    assert_eq!(list.len(), 2);
    assert_eq!(list[0], ("x".to_string(), ChannelType::Text, 1));
    assert_eq!(list[1], ("y".to_string(), ChannelType::Voice, 0));
    assert_eq!(m.channels().len(), 2);
    assert_eq!(m.config_file(), "c.json");
}
