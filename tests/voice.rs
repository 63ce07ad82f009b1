use chat_server::voice::{VoiceChannelManager, VoiceSession};

#[test]
fn join_replaces_previous_session() {
    let mut v = VoiceChannelManager::new();
    v.join_voice_channel("alice".to_string(), "gaming".to_string());
    v.toggle_mute("alice");
    v.join_voice_channel("alice".to_string(), "voice-lobby".to_string());
    let s = v.get_user_session("alice").unwrap();
    assert_eq!(s.channel, "voice-lobby");
    assert!(!s.is_muted);
    assert!(!s.is_deafened);
    assert_eq!(v.list_all_sessions().len(), 1);
}

#[test]
fn leave_reports_presence() {
    let mut v = VoiceChannelManager::new();
    assert!(!v.leave_voice_channel("alice"));
    v.join_voice_channel("alice".to_string(), "gaming".to_string());
    assert!(v.leave_voice_channel("alice"));
    assert!(v.get_user_session("alice").is_none());
    assert!(!v.leave_voice_channel("alice"));
}

#[test]
fn toggle_mute_flips() {
    let mut v = VoiceChannelManager::new();
    assert_eq!(v.toggle_mute("alice"), None);
    v.join_voice_channel("alice".to_string(), "gaming".to_string());
    assert_eq!(v.toggle_mute("alice"), Some(true));
    assert_eq!(v.toggle_mute("alice"), Some(false));
}

#[test]
fn deafen_mutes_and_undeafen_keeps_mute() {
    let mut v = VoiceChannelManager::new();
    assert_eq!(v.toggle_deafen("alice"), None);
    v.join_voice_channel("alice".to_string(), "gaming".to_string());
    assert_eq!(v.toggle_deafen("alice"), Some(true));
    let s = v.get_user_session("alice").unwrap();
    assert!(s.is_muted && s.is_deafened);
    assert_eq!(v.toggle_deafen("alice"), Some(false));
    let s = v.get_user_session("alice").unwrap();
    assert!(s.is_muted && !s.is_deafened);
    assert_eq!(v.toggle_mute("alice"), Some(false));
    assert_eq!(v.toggle_deafen("alice"), Some(true));
    assert!(v.get_user_session("alice").unwrap().is_muted);
}

#[test]
fn channel_users_in_order() {
    let mut v = VoiceChannelManager::new();
    v.join_voice_channel("alice".to_string(), "gaming".to_string());
    v.join_voice_channel("bob".to_string(), "voice-lobby".to_string());
    v.join_voice_channel("carol".to_string(), "gaming".to_string());
    assert_eq!(v.get_channel_users("gaming"), vec!["alice".to_string(), "carol".to_string()]);
    assert_eq!(v.get_channel_users("voice-lobby"), vec!["bob".to_string()]);
    assert!(v.get_channel_users("none").is_empty());
}

#[test]
fn new_voice_session_is_unmuted() {
    let s = VoiceSession::new("a".to_string(), "b".to_string());
    assert_eq!(s.username, "a");
    assert_eq!(s.channel, "b");
    assert!(!s.is_muted && !s.is_deafened);
}
