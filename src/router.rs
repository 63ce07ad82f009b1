use vstd::prelude::*;
use vstd::string::*;
use crate::channel::{
    after_create, after_join, after_leave, after_leave_all, differs_from, find_channel, has_channel,
    lemma_find_channel_at, members_of, unique_names, with_member, ChannelEntry, ChannelManager,
    ChannelType,
};
use crate::command::Command;
use crate::session::{
    after_insert, after_set_channel, current_of, has_id, is_recipient, lemma_current_at, removed,
    unique_ids, Session, SessionEntry, SessionRegistry,
};
use crate::text::{decimal, decimal_text, join_text, joined, views};
use crate::voice::{after_voice_join, in_voice, voice_left, VoiceChannelManager, VoiceEntry};

verus! {

broadcast use vstd::string::group_string_axioms;

pub const HELP_TEXT: &'static str = "\n=== Commands ===\n/channels - List all channels\n/join <channel> - Join a text channel\n/voice <channel> - Join a voice channel\n/leave - Leave current voice channel\n/create <name> text|voice - Create a new channel\n/users - List users in current channel\n/help - Show this help message\n/quit - Exit chat\n================\n\n";

/// A message and the sessions it goes to, resolved when it was raised.
#[derive(Debug, Clone)]
pub struct Notice {
    pub text: String,
    pub recipients: Vec<u128>,
}

/// What handling one line produces: a reply to the sender, messages for
/// others, and whether the connection ends.
#[derive(Debug, Clone)]
pub struct Outcome {
    pub reply: String,
    pub notices: Vec<Notice>,
    pub quit: bool,
}

/// `n` carries `text` to exactly the sessions of `ss` whose identity is in
/// `members`, `exclude` left out, each once.
pub open spec fn delivers(
    n: Notice,
    ss: Seq<SessionEntry>,
    members: Seq<Seq<char>>,
    exclude: Option<u128>,
    text: Seq<char>,
) -> bool {
    &&& n.text@ == text
    &&& n.recipients@.no_duplicates()
    &&& forall|id: u128| #[trigger]
        n.recipients@.contains(id) <==> is_recipient(ss, members, exclude, id)
}

pub open spec fn reply_only(r: Outcome, text: Seq<char>) -> bool {
    r.reply@ == text && r.notices@.len() == 0 && !r.quit
}

pub open spec fn left_text(u: Seq<char>) -> Seq<char> {
    "*** "@ + u + " left the channel ***\n"@
}

pub open spec fn joined_text(u: Seq<char>) -> Seq<char> {
    "*** "@ + u + " joined the channel ***\n"@
}

pub open spec fn chat_text(c: Seq<char>, u: Seq<char>, m: Seq<char>) -> Seq<char> {
    "["@ + c + "] "@ + u + ": "@ + m + "\n"@
}

/// The directory after `u` leaves its current channel `cur`, if any.
pub open spec fn left_current(v: Seq<ChannelEntry>, cur: Option<Seq<char>>, u: Seq<char>) -> Seq<
    ChannelEntry,
> {
    match cur {
        Some(c) => after_leave(v, c, u),
        None => v,
    }
}

/// Switching session `id` of `u` to channel `name`.
pub open spec fn join_done(
    c0: Seq<ChannelEntry>,
    c1: Seq<ChannelEntry>,
    s0: Seq<SessionEntry>,
    s1: Seq<SessionEntry>,
    name: Seq<char>,
    u: Seq<char>,
    id: u128,
    r: Outcome,
) -> bool {
    if !has_channel(c0, name) {
        c1 == c0 && s1 == s0 && reply_only(r, "Channel does not exist\n"@)
    } else {
        let cur = current_of(s0, id);
        let mid = left_current(c0, cur, u);
        &&& c1 == after_join(mid, name, u)
        &&& s1 == after_set_channel(s0, id, name)
        &&& r.reply@ == "Joined channel: "@ + name + "\n"@
        &&& !r.quit
        &&& match cur {
            Some(o) => {
                &&& r.notices@.len() == 2
                &&& delivers(r.notices@[0], s0, members_of(mid, o), None, left_text(u))
                &&& delivers(r.notices@[1], s1, members_of(c1, name), Some(id), joined_text(u))
            },
            None => {
                &&& r.notices@.len() == 1
                &&& delivers(r.notices@[0], s1, members_of(c1, name), Some(id), joined_text(u))
            },
        }
    }
}

/// A session opened for `u` is placed in "general": `u` is among its
/// members and the session's current channel is "general".
pub proof fn lemma_open_session_in_general(
    c0: Seq<ChannelEntry>,
    c1: Seq<ChannelEntry>,
    s0: Seq<SessionEntry>,
    s1: Seq<SessionEntry>,
    id: u128,
    u: Seq<char>,
)
    requires
        unique_names(c0),
        unique_ids(s0),
        has_channel(c0, "general"@),
        c1 == after_join(c0, "general"@, u),
        s1 == after_insert(s0, (id, u, Some("general"@))),
    ensures
        members_of(c1, "general"@).contains(u),
        current_of(s1, id) == Some("general"@),
{
    let g = "general"@;
    assert(unique_names(c1)) by {
        assert forall|i: int, j: int| 0 <= i < j < c1.len() implies #[trigger] c1[i].0 != #[trigger] c1[j].0 by {
            assert(c1[i].0 == c0[i].0 && c1[j].0 == c0[j].0);
        }
    }
    let jn = choose|j: int| 0 <= j < c0.len() && #[trigger] c0[j].0 == g;
    assert(c1[jn].0 == g);
    lemma_find_channel_at(c1, jn, g);
    if !c0[jn].2.contains(u) {
        let m = c0[jn].2;
        assert(m.push(u)[m.len() as int] == u);
    }
    if has_id(s0, id) {
        let si = choose|j: int| 0 <= j < s0.len() && #[trigger] s0[j].0 == id;
        assert(unique_ids(s1)) by {
            assert forall|i: int, j: int| 0 <= i < j < s1.len() implies #[trigger] s1[i].0 != #[trigger] s1[j].0 by {
                assert(s1[i].0 == s0[i].0 && s1[j].0 == s0[j].0);
            }
        }
        assert(s1[si].0 == id);
        lemma_current_at(s1, si, id);
    } else {
        let last = s0.len() as int;
        assert(unique_ids(s1)) by {
            assert forall|i: int, j: int| 0 <= i < j < s1.len() implies #[trigger] s1[i].0 != #[trigger] s1[j].0 by {
                if j == last {
                    assert(s0[i].0 != id);
                }
            }
        }
        assert(s1[last].0 == id);
        lemma_current_at(s1, last, id);
    }
}

/// Switching channels moves the identity. When session `id` of `u`, whose
/// current channel is `o`, joins another existing channel `name`: `u` is no
/// longer a member of `o` and is a member of `name`, the session's current
/// channel is `name`, and every other session keeps its current channel.
/// The departure reaches exactly the sessions whose identity is still in
/// `o`; the arrival, those whose identity is in `name`, the joiner left out.
pub proof fn lemma_join_moves_identity(
    c0: Seq<ChannelEntry>,
    c1: Seq<ChannelEntry>,
    s0: Seq<SessionEntry>,
    s1: Seq<SessionEntry>,
    name: Seq<char>,
    u: Seq<char>,
    id: u128,
    o: Seq<char>,
    r: Outcome,
)
    requires
        unique_names(c0),
        unique_ids(s0),
        has_channel(c0, name),
        current_of(s0, id) == Some(o),
        o != name,
        join_done(c0, c1, s0, s1, name, u, id, r),
    ensures
        !members_of(c1, o).contains(u),
        members_of(c1, name).contains(u),
        current_of(s1, id) == Some(name),
        forall|x: u128| x != id ==> #[trigger] current_of(s1, x) == current_of(s0, x),
        r.notices@.len() == 2,
        delivers(r.notices@[0], s0, members_of(c1, o), None, left_text(u)),
        delivers(r.notices@[1], s1, members_of(c1, name), Some(id), joined_text(u)),
{
    broadcast use vstd::seq_lib::group_filter_ensures;

    let mid = after_leave(c0, o, u);
    assert(unique_names(c1)) by {
        assert forall|i: int, j: int| 0 <= i < j < c1.len() implies #[trigger] c1[i].0 != #[trigger] c1[j].0 by {
            assert(c1[i].0 == c0[i].0 && c1[j].0 == c0[j].0);
        }
    }
    assert(unique_ids(s1)) by {
        assert forall|i: int, j: int| 0 <= i < j < s1.len() implies #[trigger] s1[i].0 != #[trigger] s1[j].0 by {
            assert(s1[i].0 == s0[i].0 && s1[j].0 == s0[j].0);
        }
    }
    // the joined channel
    let jn = choose|j: int| 0 <= j < c0.len() && #[trigger] c0[j].0 == name;
    assert(c1[jn].0 == name);
    lemma_find_channel_at(c1, jn, name);
    assert(c1[jn].2 == with_member(mid[jn].2, u));
    if !mid[jn].2.contains(u) {
        let m = mid[jn].2;
        assert(m.push(u)[m.len() as int] == u);
    }
    // the channel left
    if has_channel(c0, o) {
        let lo = choose|j: int| 0 <= j < c0.len() && #[trigger] c0[j].0 == o;
        assert(c1[lo] == mid[lo]);
        assert(c1[lo].0 == o);
        lemma_find_channel_at(c1, lo, o);
        assert(mid[lo].0 == o);
        assert(unique_names(mid)) by {
            assert forall|i: int, j: int| 0 <= i < j < mid.len() implies #[trigger] mid[i].0 != #[trigger] mid[j].0 by {
                assert(mid[i].0 == c0[i].0 && mid[j].0 == c0[j].0);
            }
        }
        lemma_find_channel_at(mid, lo, o);
        let f = c0[lo].2.filter(differs_from(u));
        assert(mid[lo].2 == f);
        if f.contains(u) {
            let k = choose|k: int| 0 <= k < f.len() && f[k] == u;
            assert(differs_from(u)(f[k]));
        }
    } else {
        assert forall|j: int| 0 <= j < c1.len() implies #[trigger] c1[j].0 != o by {
            assert(c1[j].0 == c0[j].0);
        }
        assert forall|j: int| 0 <= j < mid.len() implies #[trigger] mid[j].0 != o by {
            assert(mid[j].0 == c0[j].0);
        }
    }
    // the session
    let si = choose|j: int| 0 <= j < s0.len() && #[trigger] s0[j].0 == id;
    lemma_current_at(s0, si, id);
    assert(s1[si].0 == id);
    lemma_current_at(s1, si, id);
    assert forall|x: u128| x != id implies #[trigger] current_of(s1, x) == current_of(s0, x) by {
        if has_id(s0, x) {
            let k = choose|j: int| 0 <= j < s0.len() && #[trigger] s0[j].0 == x;
            lemma_current_at(s0, k, x);
            assert(s1[k] == s0[k]);
            lemma_current_at(s1, k, x);
        } else {
            assert forall|j: int| 0 <= j < s1.len() implies #[trigger] s1[j].0 != x by {
                assert(s1[j].0 == s0[j].0);
            }
        }
    }
}

pub open spec fn voice_note() -> Seq<char> {
    "Note: Voice streaming not implemented. This is a placeholder.\n"@
}

/// Entering voice channel `name` as `u`.
pub open spec fn voice_done(
    c: Seq<ChannelEntry>,
    v0: Seq<VoiceEntry>,
    v1: Seq<VoiceEntry>,
    name: Seq<char>,
    u: Seq<char>,
    r: Outcome,
) -> bool {
    if !has_channel(c, name) {
        v1 == v0 && reply_only(r, "Voice channel does not exist\n"@)
    } else if find_channel(c, name).1 == ChannelType::Voice {
        v1 == after_voice_join(v0, u, name) && reply_only(
            r,
            "Joined voice channel: "@ + name + "\n"@ + voice_note(),
        )
    } else {
        v1 == v0 && reply_only(r, "That's not a voice channel\n"@)
    }
}

pub open spec fn leave_done(v0: Seq<VoiceEntry>, v1: Seq<VoiceEntry>, u: Seq<char>, r: Outcome) -> bool {
    &&& voice_left(v0, v1, u)
    &&& if in_voice(v0, u) {
        reply_only(r, "Left voice channel\n"@)
    } else {
        reply_only(r, "You're not in a voice channel\n"@)
    }
}

pub open spec fn kind_word(k: ChannelType) -> Seq<char> {
    match k {
        ChannelType::Text => "text"@,
        ChannelType::Voice => "voice"@,
    }
}

pub open spec fn create_done(
    c0: Seq<ChannelEntry>,
    c1: Seq<ChannelEntry>,
    name: Seq<char>,
    k: ChannelType,
    r: Outcome,
) -> bool {
    &&& c1 == after_create(c0, name, k)
    &&& if has_channel(c0, name) {
        reply_only(r, "Channel already exists\n"@)
    } else {
        reply_only(r, "Created "@ + kind_word(k) + " channel: "@ + name + "\n"@)
    }
}

/// The members of the current channel of session `id`.
pub open spec fn users_reply(c: Seq<ChannelEntry>, s: Seq<SessionEntry>, id: u128) -> Seq<char> {
    match current_of(s, id) {
        None => "You're not in any channel\n"@,
        Some(ch) => if has_channel(c, ch) {
            "Users in "@ + ch + ": "@ + joined(find_channel(c, ch).2, ", "@) + "\n"@
        } else {
            Seq::empty()
        },
    }
}

pub open spec fn kind_icon(k: ChannelType) -> Seq<char> {
    match k {
        ChannelType::Text => "📝"@,
        ChannelType::Voice => "🔊"@,
    }
}

pub open spec fn listing_line(e: ChannelEntry) -> Seq<char> {
    kind_icon(e.1) + " "@ + e.0 + " ("@ + decimal(e.2.len()) + " users)\n"@
}

pub open spec fn listing_lines(v: Seq<ChannelEntry>) -> Seq<char>
    decreases v.len(),
{
    if v.len() == 0 {
        Seq::empty()
    } else {
        listing_lines(v.drop_last()) + listing_line(v.last())
    }
}

/// The channel list shown to a client.
pub open spec fn listing(v: Seq<ChannelEntry>) -> Seq<char> {
    "\n=== Available Channels ===\n"@ + listing_lines(v) + "========================\n"@
}

/// The reply to a command that changes nothing.
pub open spec fn fixed_reply(c: Command) -> Seq<char> {
    match c {
        Command::Help => HELP_TEXT@,
        Command::JoinUsage => "Usage: /join <channel_name>\n"@,
        Command::VoiceUsage => "Usage: /voice <channel_name>\n"@,
        Command::CreateUsage => "Usage: /create <name> text|voice\n"@,
        Command::BadChannelType => "Channel type must be 'text' or 'voice'\n"@,
        Command::Unknown => "Unknown command. Type /help for available commands.\n"@,
        Command::NoArguments(w) => "Usage: "@ + w@ + "\n"@,
        _ => Seq::empty(),
    }
}

fn concat3(a: &str, b: &str, c: &str) -> (r: String)
    ensures
        r@ == a@ + b@ + c@,
{
    let mut s = a.to_owned();
    s.append(b);
    s.append(c);
    s
}

fn reply(text: &str) -> (r: Outcome)
    ensures
        reply_only(r, text@),
{
    Outcome { reply: text.to_owned(), notices: Vec::new(), quit: false }
}

/// The sessions that a message for channel `channel_name` goes to: those
/// whose identity is a member of it, `exclude` left out, each once.
pub fn broadcast_targets(
    channels: &ChannelManager,
    sessions: &SessionRegistry,
    channel_name: &str,
    exclude: Option<u128>,
) -> (r: Vec<u128>)
    requires
        channels.wf(),
        sessions.wf(),
    ensures
        r@.no_duplicates(),
        forall|id: u128| #[trigger]
            r@.contains(id) <==> is_recipient(
                sessions@,
                members_of(channels@, channel_name@),
                exclude,
                id,
            ),
{
    match channels.get_channel(channel_name) {
        Some(c) => sessions.snapshot_for(&c.users, exclude),
        None => {
            let empty: Vec<String> = Vec::new();
            assert(views(empty@) =~= Seq::<Seq<char>>::empty());
            sessions.snapshot_for(&empty, exclude)
        },
    }
}

/// `text` addressed to channel `channel_name`, `exclude` left out.
pub fn notice(
    channels: &ChannelManager,
    sessions: &SessionRegistry,
    channel_name: &str,
    text: String,
    exclude: Option<u128>,
) -> (r: Notice)
    requires
        channels.wf(),
        sessions.wf(),
    ensures
        delivers(r, sessions@, members_of(channels@, channel_name@), exclude, text@),
{
    let recipients = broadcast_targets(channels, sessions, channel_name, exclude);
    Notice { text, recipients }
}

/// `/join`: leaves the current channel, joins `name` and makes it current,
/// announcing the departure and the arrival.
pub fn handle_join_command(
    channels: &mut ChannelManager,
    sessions: &mut SessionRegistry,
    name: &str,
    username: &str,
    session_id: u128,
) -> (r: Outcome)
    requires
        old(channels).wf(),
        old(sessions).wf(),
    ensures
        final(channels).wf(),
        final(sessions).wf(),
        final(channels).config() == old(channels).config(),
        join_done(
            old(channels)@,
            final(channels)@,
            old(sessions)@,
            final(sessions)@,
            name@,
            username@,
            session_id,
            r,
        ),
{
    if !channels.channel_exists(name) {
        return reply("Channel does not exist\n");
    }
    let mut notices: Vec<Notice> = Vec::new();
    let current = sessions.get_current_channel(session_id);
    match &current {
        Some(o) => {
            channels.leave_channel(o.as_str(), username);
            let n = notice(
                channels,
                sessions,
                o.as_str(),
                concat3("*** ", username, " left the channel ***\n"),
                None,
            );
            notices.push(n);
        },
        None => {},
    }
    channels.join_channel(name, username.to_owned());
    sessions.set_current_channel(session_id, name.to_owned());
    let n = notice(
        channels,
        sessions,
        name,
        concat3("*** ", username, " joined the channel ***\n"),
        Some(session_id),
    );
    notices.push(n);
    Outcome { reply: concat3("Joined channel: ", name, "\n"), notices, quit: false }
}

/// `/voice`: enters voice channel `name`, which must exist and be a voice
/// channel.
pub fn handle_voice_command(
    channels: &ChannelManager,
    voice: &mut VoiceChannelManager,
    name: &str,
    username: &str,
) -> (r: Outcome)
    requires
        channels.wf(),
        old(voice).wf(),
    ensures
        final(voice).wf(),
        voice_done(channels@, old(voice)@, final(voice)@, name@, username@, r),
{
    match channels.get_channel(name) {
        None => reply("Voice channel does not exist\n"),
        Some(c) => {
            if c.channel_type == ChannelType::Voice {
                voice.join_voice_channel(username.to_owned(), name.to_owned());
                let mut text = concat3("Joined voice channel: ", name, "\n");
                text.append("Note: Voice streaming not implemented. This is a placeholder.\n");
                Outcome { reply: text, notices: Vec::new(), quit: false }
            } else {
                reply("That's not a voice channel\n")
            }
        },
    }
}

/// `/leave`: ends the voice session of `username`.
pub fn handle_leave_command(voice: &mut VoiceChannelManager, username: &str) -> (r: Outcome)
    requires
        old(voice).wf(),
    ensures
        final(voice).wf(),
        leave_done(old(voice)@, final(voice)@, username@, r),
{
    if voice.leave_voice_channel(username) {
        reply("Left voice channel\n")
    } else {
        reply("You're not in a voice channel\n")
    }
}

/// `/create`: adds channel `name` of kind `kind` unless the name is taken.
pub fn handle_create_command(channels: &mut ChannelManager, name: &str, kind: ChannelType) -> (r:
    Outcome)
    requires
        old(channels).wf(),
    ensures
        final(channels).wf(),
        final(channels).config() == old(channels).config(),
        create_done(old(channels)@, final(channels)@, name@, kind, r),
{
    if channels.create_channel(name, kind) {
        let word = match kind {
            ChannelType::Text => "text",
            ChannelType::Voice => "voice",
        };
        let mut text = concat3("Created ", word, " channel: ");
        text.append(name);
        text.append("\n");
        Outcome { reply: text, notices: Vec::new(), quit: false }
    } else {
        reply("Channel already exists\n")
    }
}

/// `/users`: the members of the sender's current channel.
pub fn handle_users_command(
    channels: &ChannelManager,
    sessions: &SessionRegistry,
    session_id: u128,
) -> (r: Outcome)
    requires
        channels.wf(),
        sessions.wf(),
    ensures
        reply_only(r, users_reply(channels@, sessions@, session_id)),
{
    match sessions.get_current_channel(session_id) {
        None => reply("You're not in any channel\n"),
        Some(ch) => match channels.get_channel(ch.as_str()) {
            Some(c) => {
                let mut text = concat3("Users in ", ch.as_str(), ": ");
                let names = join_text(&c.users, ", ");
                text.append(names.as_str());
                text.append("\n");
                Outcome { reply: text, notices: Vec::new(), quit: false }
            },
            None => Outcome { reply: String::new(), notices: Vec::new(), quit: false },
        },
    }
}

/// The channel list: each channel's kind, name and number of members.
pub fn show_channels(channels: &ChannelManager) -> (r: String)
    ensures
        r@ == listing(channels@),
{
    let list = channels.list_channels();
    let mut text = "\n=== Available Channels ===\n".to_owned();
    let ghost v = channels@;
    let mut i: usize = 0;
    while i < list.len()
        invariant
            i <= list@.len(),
            list@.len() == v.len(),
            forall|k: int|
                0 <= k < list@.len() ==> {
                    &&& (#[trigger] list@[k]).0@ == v[k].0
                    &&& list@[k].1 == v[k].1
                    &&& list@[k].2 == v[k].2.len()
                },
            text@ == "\n=== Available Channels ===\n"@ + listing_lines(v.subrange(0, i as int)),
        decreases list@.len() - i,
    {
        let ghost pre = v.subrange(0, i as int);
        assert(v.subrange(0, i + 1).drop_last() =~= pre);
        let e = &list[i];
        let icon = match e.1 {
            ChannelType::Text => "📝",
            ChannelType::Voice => "🔊",
        };
        let count = decimal_text(e.2);
        let line = concat3(icon, " ", e.0.as_str());
        let tail = concat3(" (", count.as_str(), " users)\n");
        text.append(line.as_str());
        text.append(tail.as_str());
        assert(text@ =~= "\n=== Available Channels ===\n"@ + listing_lines(v.subrange(0, i + 1)));
        i += 1;
    }
    assert(v.subrange(0, v.len() as int) =~= v);
    text.append("========================\n");
    text
}

/// Carries out a command line of session `session_id`, whose identity is
/// `username`.
pub fn handle_command(
    command: &Command,
    channels: &mut ChannelManager,
    voice: &mut VoiceChannelManager,
    sessions: &mut SessionRegistry,
    username: &str,
    session_id: u128,
) -> (r: Outcome)
    requires
        old(channels).wf(),
        old(voice).wf(),
        old(sessions).wf(),
    ensures
        final(channels).wf(),
        final(voice).wf(),
        final(sessions).wf(),
        final(channels).config() == old(channels).config(),
        match *command {
            Command::Join(n) => final(voice)@ == old(voice)@ && join_done(
                old(channels)@,
                final(channels)@,
                old(sessions)@,
                final(sessions)@,
                n@,
                username@,
                session_id,
                r,
            ),
            Command::Voice(n) => final(channels)@ == old(channels)@ && final(sessions)@ == old(sessions)@ && voice_done(old(channels)@, old(voice)@, final(voice)@, n@, username@, r),
            Command::Leave => final(channels)@ == old(channels)@ && final(sessions)@ == old(sessions)@ && leave_done(old(voice)@, final(voice)@, username@, r),
            Command::Create(n, k) => final(voice)@ == old(voice)@ && final(sessions)@ == old(sessions)@ && create_done(old(channels)@, final(channels)@, n@, k, r),
            Command::Users => final(channels)@ == old(channels)@ && final(voice)@ == old(voice)@
                && final(sessions)@ == old(sessions)@ && reply_only(
                r,
                users_reply(old(channels)@, old(sessions)@, session_id),
            ),
            Command::Channels => final(channels)@ == old(channels)@ && final(voice)@ == old(voice)@ && final(sessions)@ == old(sessions)@ && reply_only(r, listing(old(channels)@)),
            Command::Quit => final(channels)@ == old(channels)@ && final(voice)@ == old(voice)@
                && final(sessions)@ == old(sessions)@ && r.reply@ == "Goodbye!\n"@
                && r.notices@.len() == 0 && r.quit,
            _ => final(channels)@ == old(channels)@ && final(voice)@ == old(voice)@ && final(sessions)@ == old(sessions)@ && reply_only(r, fixed_reply(*command)),
        },
{
    match command {
        Command::Help => reply(HELP_TEXT),
        Command::Channels => {
            let text = show_channels(channels);
            Outcome { reply: text, notices: Vec::new(), quit: false }
        },
        Command::Join(n) => handle_join_command(channels, sessions, n.as_str(), username, session_id),
        Command::JoinUsage => reply("Usage: /join <channel_name>\n"),
        Command::Voice(n) => handle_voice_command(channels, voice, n.as_str(), username),
        Command::VoiceUsage => reply("Usage: /voice <channel_name>\n"),
        Command::Leave => handle_leave_command(voice, username),
        Command::Create(n, k) => handle_create_command(channels, n.as_str(), *k),
        Command::CreateUsage => reply("Usage: /create <name> text|voice\n"),
        Command::BadChannelType => reply("Channel type must be 'text' or 'voice'\n"),
        Command::Users => handle_users_command(channels, sessions, session_id),
        Command::Quit => Outcome { reply: "Goodbye!\n".to_owned(), notices: Vec::new(), quit: true },
        Command::Unknown => reply("Unknown command. Type /help for available commands.\n"),
        Command::NoArguments(w) => reply(concat3("Usage: ", w.as_str(), "\n").as_str()),
        Command::Empty => Outcome { reply: String::new(), notices: Vec::new(), quit: false },
    }
}

/// A plain line from session `session_id`: it goes, prefixed with the
/// channel and `username`, to the others in the sender's current channel.
/// Nothing is sent where the sender has no current channel.
pub fn chat_message(
    channels: &ChannelManager,
    sessions: &SessionRegistry,
    session_id: u128,
    username: &str,
    message: &str,
) -> (r: Option<Notice>)
    requires
        channels.wf(),
        sessions.wf(),
    ensures
        match current_of(sessions@, session_id) {
            Some(c) => (r matches Some(n) && delivers(
                n,
                sessions@,
                members_of(channels@, c),
                Some(session_id),
                chat_text(c, username@, message@),
            )),
            None => r is None,
        },
{
    match sessions.get_current_channel(session_id) {
        None => None,
        Some(c) => {
            let mut text = concat3("[", c.as_str(), "] ");
            text.append(username);
            text.append(": ");
            text.append(message);
            text.append("\n");
            Some(notice(channels, sessions, c.as_str(), text, Some(session_id)))
        },
    }
}

/// Registers a newly authenticated `identity` under session identifier
/// `id`: the session is placed in "general", and its arrival is announced to
/// the others there. Returns the announcement.
pub fn open_session(
    channels: &mut ChannelManager,
    sessions: &mut SessionRegistry,
    id: u128,
    identity: String,
) -> (r: Notice)
    requires
        old(channels).wf(),
        old(sessions).wf(),
    ensures
        final(channels).wf(),
        final(sessions).wf(),
        final(channels).config() == old(channels).config(),
        final(channels)@ == after_join(old(channels)@, "general"@, identity@),
        final(sessions)@ == after_insert(old(sessions)@, (id, identity@, Some("general"@))),
        delivers(
            r,
            final(sessions)@,
            members_of(final(channels)@, "general"@),
            Some(id),
            joined_text(identity@),
        ),
{
    let session = Session::new(id, identity.clone());
    channels.join_channel("general", identity.clone());
    sessions.insert(session);
    let n = notice(
        channels,
        sessions,
        "general",
        concat3("*** ", identity.as_str(), " joined the channel ***\n"),
        Some(id),
    );
    n
}

/// Cleans up after session `session_id` of `username` is gone: it leaves
/// the session table, every channel and voice, and its departure is
/// announced in the channel it was in.
pub fn close_session(
    channels: &mut ChannelManager,
    voice: &mut VoiceChannelManager,
    sessions: &mut SessionRegistry,
    session_id: u128,
    username: &str,
) -> (r: Option<Notice>)
    requires
        old(channels).wf(),
        old(voice).wf(),
        old(sessions).wf(),
    ensures
        final(channels).wf(),
        final(voice).wf(),
        final(sessions).wf(),
        final(channels).config() == old(channels).config(),
        removed(old(sessions)@, final(sessions)@, session_id),
        final(channels)@ == after_leave_all(old(channels)@, username@),
        voice_left(old(voice)@, final(voice)@, username@),
        match current_of(old(sessions)@, session_id) {
            Some(c) => (r matches Some(n) && delivers(
                n,
                final(sessions)@,
                members_of(final(channels)@, c),
                None,
                left_text(username@),
            )),
            None => r is None,
        },
{
    let current = sessions.get_current_channel(session_id);
    sessions.remove(session_id);
    channels.leave_all_channels(username);
    voice.leave_voice_channel(username);
    match current {
        Some(c) => Some(
            notice(
                channels,
                sessions,
                c.as_str(),
                concat3("*** ", username, " left the channel ***\n"),
                None,
            ),
        ),
        None => None,
    }
}

} // verus!
