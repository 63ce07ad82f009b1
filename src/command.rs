use vstd::prelude::*;
use vstd::string::*;
use crate::channel::ChannelType;
use crate::text::{same_text, split_words, views, words};

verus! {

broadcast use vstd::string::group_string_axioms;

/// A command line, read by its first word. A command given more or fewer
/// arguments than it takes reads as a usage request.
#[derive(Debug, Clone)]
pub enum Command {
    Help,
    Channels,
    Join(String),
    JoinUsage,
    Voice(String),
    VoiceUsage,
    Leave,
    Create(String, ChannelType),
    CreateUsage,
    BadChannelType,
    Users,
    Quit,
    Unknown,
    Empty,
    /// A command that takes no arguments, given some; holds its first word.
    NoArguments(String),
}

pub open spec fn takes_no_arguments(w: Seq<char>) -> bool {
    w == "/help"@ || w == "/channels"@ || w == "/leave"@ || w == "/users"@ || w == "/quit"@
}

/// The command that the words `ws` of a line stand for.
pub open spec fn parsed_as(c: Command, ws: Seq<Seq<char>>) -> bool {
    if ws.len() == 0 {
        c is Empty
    } else if takes_no_arguments(ws[0]) && ws.len() > 1 {
        c matches Command::NoArguments(w) && w@ == ws[0]
    } else if ws[0] == "/help"@ {
        c is Help
    } else if ws[0] == "/channels"@ {
        c is Channels
    } else if ws[0] == "/join"@ {
        if ws.len() != 2 {
            c is JoinUsage
        } else {
            c matches Command::Join(n) && n@ == ws[1]
        }
    } else if ws[0] == "/voice"@ {
        if ws.len() != 2 {
            c is VoiceUsage
        } else {
            c matches Command::Voice(n) && n@ == ws[1]
        }
    } else if ws[0] == "/leave"@ {
        c is Leave
    } else if ws[0] == "/create"@ {
        if ws.len() != 3 {
            c is CreateUsage
        } else if ws[2] == "text"@ {
            c matches Command::Create(n, k) && n@ == ws[1] && k == ChannelType::Text
        } else if ws[2] == "voice"@ {
            c matches Command::Create(n, k) && n@ == ws[1] && k == ChannelType::Voice
        } else {
            c is BadChannelType
        }
    } else if ws[0] == "/users"@ {
        c is Users
    } else if ws[0] == "/quit"@ {
        c is Quit
    } else {
        c is Unknown
    }
}

/// What a client picks at the authentication prompt.
#[derive(Debug, Clone, Copy, PartialEq, Eq, Structural)]
pub enum AuthChoice {
    Login,
    Register,
    Invalid,
}

pub open spec fn auth_choice_of(line: Seq<char>) -> AuthChoice {
    if line == "1"@ {
        AuthChoice::Login
    } else if line == "2"@ {
        AuthChoice::Register
    } else {
        AuthChoice::Invalid
    }
}

/// Reads the answer to "1. Login / 2. Register": exactly "1" or "2";
/// anything else is invalid.
pub fn auth_choice(line: &str) -> (r: AuthChoice)
    ensures
        r == auth_choice_of(line@),
{
    if same_text(line, "1") {
        AuthChoice::Login
    } else if same_text(line, "2") {
        AuthChoice::Register
    } else {
        AuthChoice::Invalid
    }
}

/// Whether a line is a command: it starts with `/`.
pub fn is_command(line: &str) -> (r: bool)
    ensures
        r == (line@.len() > 0 && line@[0] == '/'),
{
    line.unicode_len() > 0 && line.get_char(0) == '/'
}

/// Reads a command line.
pub fn parse_command(line: &str) -> (c: Command)
    ensures
        parsed_as(c, words(line@)),
{
    let mut ws = split_words(line);
    let ghost w = views(ws@);
    let n = ws.len();
    if n == 0 {
        return Command::Empty;
    }
    assert(w[0] == ws@[0]@);
    let bare = same_text(ws[0].as_str(), "/help") || same_text(ws[0].as_str(), "/channels")
        || same_text(ws[0].as_str(), "/leave") || same_text(ws[0].as_str(), "/users")
        || same_text(ws[0].as_str(), "/quit");
    if bare && n > 1 {
        Command::NoArguments(ws.remove(0))
    } else if same_text(ws[0].as_str(), "/help") {
        Command::Help
    } else if same_text(ws[0].as_str(), "/channels") {
        Command::Channels
    } else if same_text(ws[0].as_str(), "/join") {
        if n != 2 {
            Command::JoinUsage
        } else {
            assert(w[1] == ws@[1]@);
            Command::Join(ws.remove(1))
        }
    } else if same_text(ws[0].as_str(), "/voice") {
        if n != 2 {
            Command::VoiceUsage
        } else {
            assert(w[1] == ws@[1]@);
            Command::Voice(ws.remove(1))
        }
    } else if same_text(ws[0].as_str(), "/leave") {
        Command::Leave
    } else if same_text(ws[0].as_str(), "/create") {
        if n != 3 {
            Command::CreateUsage
        } else {
            assert(w[1] == ws@[1]@);
            assert(w[2] == ws@[2]@);
            let kind = if same_text(ws[2].as_str(), "text") {
                Some(ChannelType::Text)
            } else if same_text(ws[2].as_str(), "voice") {
                Some(ChannelType::Voice)
            } else {
                None
            };
            match kind {
                Some(k) => Command::Create(ws.remove(1), k),
                None => Command::BadChannelType,
            }
        }
    } else if same_text(ws[0].as_str(), "/users") {
        Command::Users
    } else if same_text(ws[0].as_str(), "/quit") {
        Command::Quit
    } else {
        Command::Unknown
    }
}

} // verus!
