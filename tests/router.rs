use chat_server::auth::AuthManager;
use chat_server::channel::{ChannelManager, ChannelType};
use chat_server::command::{auth_choice, is_command, parse_command, AuthChoice, Command};
use chat_server::router::{
    broadcast_targets, chat_message, close_session, handle_command, open_session, show_channels,
    HELP_TEXT,
};
use chat_server::session::SessionRegistry;
use chat_server::text::{decimal_text, join_text, split_words};
use chat_server::voice::VoiceChannelManager;

struct World {
    channels: ChannelManager,
    voice: VoiceChannelManager,
    sessions: SessionRegistry,
}

fn world() -> World {
    World { channels: ChannelManager::new(), voice: VoiceChannelManager::new(), sessions: SessionRegistry::new() }
}

fn run(w: &mut World, line: &str, user: &str, id: u128) -> chat_server::router::Outcome {
    let cmd = parse_command(line);
    handle_command(&cmd, &mut w.channels, &mut w.voice, &mut w.sessions, user, id)
}

fn sorted(mut v: Vec<u128>) -> Vec<u128> {
    v.sort();
    v
}

#[test]
fn words_split_on_whitespace() {
    assert_eq!(split_words("  /join\t random  x "), vec!["/join", "random", "x"]);
    assert!(split_words("   ").is_empty());
    assert_eq!(split_words("a\u{3000}b"), vec!["a", "b"]);
}

#[test]
fn decimal_and_join() {
    assert_eq!(decimal_text(0), "0");
    assert_eq!(decimal_text(7), "7");
    assert_eq!(decimal_text(1205), "1205");
    assert_eq!(join_text(&vec!["a".to_string(), "b".to_string(), "c".to_string()], ", "), "a, b, c");
    assert_eq!(join_text(&Vec::new(), ", "), "");
}

#[test]
fn authentication_choice() {
    assert_eq!(auth_choice("1"), AuthChoice::Login);
    assert_eq!(auth_choice("2"), AuthChoice::Register);
    assert_eq!(auth_choice("3"), AuthChoice::Invalid);
    assert_eq!(auth_choice("12"), AuthChoice::Invalid);
    assert_eq!(auth_choice(""), AuthChoice::Invalid);
}

#[test]
fn command_detection() {
    assert!(is_command("/help"));
    assert!(!is_command("hello"));
    assert!(!is_command(""));
}

#[test]
fn parse_commands() {
    assert!(matches!(parse_command("/help"), Command::Help));
    assert!(matches!(parse_command("/channels"), Command::Channels));
    assert!(matches!(parse_command("/channels extra"), Command::NoArguments(w) if w == "/channels"));
    assert!(matches!(parse_command("/join a b"), Command::JoinUsage));
    assert!(matches!(parse_command("/voice a b"), Command::VoiceUsage));
    assert!(matches!(parse_command("/create a text b"), Command::CreateUsage));
    assert!(matches!(parse_command("/quit now"), Command::NoArguments(w) if w == "/quit"));
    assert!(matches!(parse_command("/join"), Command::JoinUsage));
    assert!(matches!(parse_command("/join random"), Command::Join(n) if n == "random"));
    assert!(matches!(parse_command("/voice"), Command::VoiceUsage));
    assert!(matches!(parse_command("/voice gaming"), Command::Voice(n) if n == "gaming"));
    assert!(matches!(parse_command("/leave"), Command::Leave));
    assert!(matches!(parse_command("/create x"), Command::CreateUsage));
    assert!(matches!(parse_command("/create x text"), Command::Create(n, ChannelType::Text) if n == "x"));
    assert!(matches!(parse_command("/create x voice"), Command::Create(n, ChannelType::Voice) if n == "x"));
    assert!(matches!(parse_command("/create x audio"), Command::BadChannelType));
    assert!(matches!(parse_command("/users"), Command::Users));
    assert!(matches!(parse_command("/quit"), Command::Quit));
    assert!(matches!(parse_command("/dance"), Command::Unknown));
    assert!(matches!(parse_command("/"), Command::Unknown));
    assert!(matches!(parse_command(""), Command::Empty));
}

#[test]
fn fixed_replies() {
    let mut w = world();
    assert_eq!(run(&mut w, "/help", "a", 1).reply, HELP_TEXT);
    assert_eq!(run(&mut w, "/join", "a", 1).reply, "Usage: /join <channel_name>\n");
    assert_eq!(run(&mut w, "/voice", "a", 1).reply, "Usage: /voice <channel_name>\n");
    assert_eq!(run(&mut w, "/create x", "a", 1).reply, "Usage: /create <name> text|voice\n");
    assert_eq!(run(&mut w, "/create x y", "a", 1).reply, "Channel type must be 'text' or 'voice'\n");
    assert_eq!(run(&mut w, "/foo", "a", 1).reply, "Unknown command. Type /help for available commands.\n");
    let q = run(&mut w, "/quit", "a", 1);
    assert!(q.quit);
    assert_eq!(q.reply, "Goodbye!\n");
    assert_eq!(w.channels.list_channels().len(), 4);
}

#[test]
fn arity_violations_change_nothing() {
    let mut w = world();
    let a: u128 = 101;
    let _ = open_session(&mut w.channels, &mut w.sessions, a, "alice".to_string());
    let out = run(&mut w, "/join random extra", "alice", a);
    assert_eq!(out.reply, "Usage: /join <channel_name>\n");
    assert!(out.notices.is_empty());
    assert_eq!(w.sessions.get_current_channel(a).as_deref(), Some("general"));
    assert_eq!(run(&mut w, "/create x text more", "alice", a).reply, "Usage: /create <name> text|voice\n");
    assert!(!w.channels.channel_exists("x"));
    assert_eq!(run(&mut w, "/voice gaming now", "alice", a).reply, "Usage: /voice <channel_name>\n");
    assert!(w.voice.get_user_session("alice").is_none());
    assert_eq!(run(&mut w, "/help me", "alice", a).reply, "Usage: /help\n");
    let q = run(&mut w, "/quit now", "alice", a);
    assert!(!q.quit);
    assert_eq!(q.reply, "Usage: /quit\n");
}

#[test]
fn create_voice_then_text_refused() {
    let mut w = world();
    assert_eq!(run(&mut w, "/create lobby voice", "a", 1).reply, "Created voice channel: lobby\n");
    assert_eq!(run(&mut w, "/create lobby text", "a", 1).reply, "Channel already exists\n");
    assert_eq!(w.channels.get_channel("lobby").unwrap().channel_type, ChannelType::Voice);
    assert_eq!(run(&mut w, "/create notes text", "a", 1).reply, "Created text channel: notes\n");
}

#[test]
fn voice_command_checks_kind() {
    let mut w = world();
    assert_eq!(run(&mut w, "/voice nowhere", "a", 1).reply, "Voice channel does not exist\n");
    assert_eq!(run(&mut w, "/voice general", "a", 1).reply, "That's not a voice channel\n");
    assert_eq!(
        run(&mut w, "/voice gaming", "a", 1).reply,
        "Joined voice channel: gaming\nNote: Voice streaming not implemented. This is a placeholder.\n"
    );
    assert_eq!(w.voice.get_channel_users("gaming"), vec!["a".to_string()]);
    assert_eq!(run(&mut w, "/leave", "a", 1).reply, "Left voice channel\n");
    assert_eq!(run(&mut w, "/leave", "a", 1).reply, "You're not in a voice channel\n");
}

#[test]
fn channel_listing_text() {
    let mut m = ChannelManager::new();
    m.join_channel("random", "a".to_string());
    assert_eq!(
        show_channels(&m),
        "\n=== Available Channels ===\n📝 general (0 users)\n📝 random (1 users)\n🔊 voice-lobby (0 users)\n🔊 gaming (0 users)\n========================\n"
    );
}

#[test]
fn users_command() {
    let mut w = world();
    assert_eq!(run(&mut w, "/users", "a", 1).reply, "You're not in any channel\n");
    let a: u128 = 102;
    let _ = open_session(&mut w.channels, &mut w.sessions, a, "alice".to_string());
    let id3: u128 = 103;
    let _ = open_session(&mut w.channels, &mut w.sessions, id3, "bob".to_string());
    assert_eq!(run(&mut w, "/users", "alice", a).reply, "Users in general: alice, bob\n");
}

#[test]
fn join_unknown_channel_changes_nothing() {
    let mut w = world();
    let a: u128 = 104;
    let _ = open_session(&mut w.channels, &mut w.sessions, a, "alice".to_string());
    let out = run(&mut w, "/join nowhere", "alice", a);
    assert_eq!(out.reply, "Channel does not exist\n");
    assert!(out.notices.is_empty());
    assert_eq!(w.sessions.get_current_channel(a).as_deref(), Some("general"));
}

#[test]
fn end_to_end_join_and_chat_scoping() {
    let mut auth = AuthManager::with_cost("users.json", 4);
    auth.register("bob", "password2").unwrap();
    let alice = auth.register("alice", "password1").unwrap();
    let bob = auth.login("bob", "password2").unwrap();

    let mut w = world();
    let a: u128 = 105;
    let arrival = open_session(&mut w.channels, &mut w.sessions, a, alice.name.clone());
    assert!(arrival.recipients.is_empty());
    let b: u128 = 106;
    let arrival = open_session(&mut w.channels, &mut w.sessions, b, bob.name.clone());
    assert_eq!(arrival.text, "*** bob joined the channel ***\n");
    assert_eq!(arrival.recipients, vec![a]);
    assert_eq!(w.sessions.get_current_channel(a).as_deref(), Some("general"));

    let out = run(&mut w, "/join random", "alice", a);
    assert_eq!(out.reply, "Joined channel: random\n");
    assert_eq!(out.notices.len(), 2);
    assert_eq!(out.notices[0].text, "*** alice left the channel ***\n");
    assert_eq!(out.notices[0].recipients, vec![b]);
    assert_eq!(out.notices[1].text, "*** alice joined the channel ***\n");
    assert!(out.notices[1].recipients.is_empty());
    assert_eq!(w.sessions.get_current_channel(a).as_deref(), Some("random"));
    assert_eq!(w.channels.get_channel("general").unwrap().users, vec!["bob".to_string()]);

    let hi = chat_message(&w.channels, &w.sessions, a, "alice", "hi").unwrap();
    assert_eq!(hi.text, "[random] alice: hi\n");
    assert!(!hi.recipients.contains(&b));
    assert!(hi.recipients.is_empty());

    let c: u128 = 107;
    let _ = open_session(&mut w.channels, &mut w.sessions, c, "carol".to_string());
    run(&mut w, "/join random", "carol", c);
    let hi = chat_message(&w.channels, &w.sessions, a, "alice", "hi").unwrap();
    assert_eq!(hi.recipients, vec![c]);
}

#[test]
fn broadcast_excludes_sender_only() {
    let mut w = world();
    let a: u128 = 108;
    let _ = open_session(&mut w.channels, &mut w.sessions, a, "alice".to_string());
    let b: u128 = 109;
    let _ = open_session(&mut w.channels, &mut w.sessions, b, "bob".to_string());
    let c: u128 = 110;
    let _ = open_session(&mut w.channels, &mut w.sessions, c, "carol".to_string());
    assert_eq!(sorted(broadcast_targets(&w.channels, &w.sessions, "general", Some(b))), sorted(vec![a, c]));
    assert_eq!(sorted(broadcast_targets(&w.channels, &w.sessions, "general", None)), sorted(vec![a, b, c]));
    assert!(broadcast_targets(&w.channels, &w.sessions, "random", None).is_empty());
    assert!(broadcast_targets(&w.channels, &w.sessions, "nowhere", None).is_empty());
}

#[test]
fn chat_without_channel_is_dropped() {
    let mut w = world();
    w.sessions.insert(chat_server::session::Session { id: 5, identity: "x".to_string(), current_channel: None });
    assert!(chat_message(&w.channels, &w.sessions, 5, "x", "hello").is_none());
    assert!(chat_message(&w.channels, &w.sessions, 6, "y", "hello").is_none());
}

#[test]
fn close_session_cleans_up_and_announces() {
    let mut w = world();
    let a: u128 = 111;
    let _ = open_session(&mut w.channels, &mut w.sessions, a, "alice".to_string());
    let b: u128 = 112;
    let _ = open_session(&mut w.channels, &mut w.sessions, b, "bob".to_string());
    run(&mut w, "/voice gaming", "alice", a);
    let n = close_session(&mut w.channels, &mut w.voice, &mut w.sessions, a, "alice").unwrap();
    assert_eq!(n.text, "*** alice left the channel ***\n");
    assert_eq!(n.recipients, vec![b]);
    assert!(!w.sessions.contains(a));
    assert!(w.voice.get_user_session("alice").is_none());
    assert_eq!(w.channels.get_channel("general").unwrap().users, vec!["bob".to_string()]);
    assert!(close_session(&mut w.channels, &mut w.voice, &mut w.sessions, a, "alice").is_none());
}
