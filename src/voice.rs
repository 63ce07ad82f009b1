use vstd::prelude::*;
use crate::text::same_text;

verus! {

/// Presence of one identity in a voice channel; no media is carried.
#[derive(Debug, Clone)]
pub struct VoiceSession {
    pub username: String,
    pub channel: String,
    pub is_muted: bool,
    pub is_deafened: bool,
}

/// A voice session to the contracts: identity, channel, muted, deafened.
pub type VoiceEntry = (Seq<char>, Seq<char>, bool, bool);

impl VoiceSession {
    pub open spec fn entry(self) -> VoiceEntry {
        (self.username@, self.channel@, self.is_muted, self.is_deafened)
    }

    pub fn new(username: String, channel: String) -> (r: VoiceSession)
        ensures
            r.username == username,
            r.channel == channel,
            !r.is_muted,
            !r.is_deafened,
    {
        VoiceSession { username, channel, is_muted: false, is_deafened: false }
    }
}

pub open spec fn voice_entries(v: Seq<VoiceSession>) -> Seq<VoiceEntry> {
    v.map_values(|s: VoiceSession| s.entry())
}

pub open spec fn in_voice(v: Seq<VoiceEntry>, u: Seq<char>) -> bool {
    exists|i: int| 0 <= i < v.len() && #[trigger] v[i].0 == u
}

pub open spec fn unique_users(v: Seq<VoiceEntry>) -> bool {
    forall|i: int, j: int| 0 <= i < j < v.len() ==> #[trigger] v[i].0 != #[trigger] v[j].0
}

/// A fresh session for `u` in `c`, replacing the one `u` had.
pub open spec fn after_voice_join(v: Seq<VoiceEntry>, u: Seq<char>, c: Seq<char>) -> Seq<
    VoiceEntry,
> {
    if in_voice(v, u) {
        Seq::new(v.len(), |i: int| if v[i].0 == u { (u, c, false, false) } else { v[i] })
    } else {
        v.push((u, c, false, false))
    }
}

pub open spec fn after_toggle_mute(v: Seq<VoiceEntry>, u: Seq<char>) -> Seq<VoiceEntry> {
    Seq::new(v.len(), |i: int| if v[i].0 == u { (v[i].0, v[i].1, !v[i].2, v[i].3) } else { v[i] })
}

/// Deafening also mutes; undeafening leaves the mute flag as it was.
pub open spec fn after_toggle_deafen(v: Seq<VoiceEntry>, u: Seq<char>) -> Seq<VoiceEntry> {
    Seq::new(
        v.len(),
        |i: int|
            if v[i].0 == u {
                (v[i].0, v[i].1, if v[i].3 { v[i].2 } else { true }, !v[i].3)
            } else {
                v[i]
            },
    )
}

/// `after` is `before` without the session of `u`.
pub open spec fn voice_left(before: Seq<VoiceEntry>, after: Seq<VoiceEntry>, u: Seq<char>) -> bool {
    if in_voice(before, u) {
        exists|i: int| 0 <= i < before.len() && before[i].0 == u && after == before.remove(i)
    } else {
        after == before
    }
}

/// The identities whose session is in channel `c`, in order.
pub open spec fn users_in(v: Seq<VoiceEntry>, c: Seq<char>) -> Seq<Seq<char>>
    decreases v.len(),
{
    if v.len() == 0 {
        Seq::empty()
    } else {
        let d = users_in(v.drop_last(), c);
        if v.last().1 == c {
            d.push(v.last().0)
        } else {
            d
        }
    }
}

/// Voice presence, one session per identity.
pub struct VoiceChannelManager {
    sessions: Vec<VoiceSession>,
}

impl View for VoiceChannelManager {
    type V = Seq<VoiceEntry>;

    closed spec fn view(&self) -> Seq<VoiceEntry> {
        voice_entries(self.sessions@)
    }
}

impl VoiceChannelManager {
    pub open spec fn wf(&self) -> bool {
        unique_users(self@)
    }

    pub fn new() -> (r: VoiceChannelManager)
        ensures
            r.wf(),
            r@.len() == 0,
    {
        VoiceChannelManager { sessions: Vec::new() }
    }

    fn position(&self, username: &str) -> (r: Option<usize>)
        ensures
            match r {
                Some(i) => i < self@.len() && self@[i as int].0 == username@,
                None => !in_voice(self@, username@),
            },
    {
        let mut i: usize = 0;
        while i < self.sessions.len()
            invariant
                i <= self@.len(),
                self@.len() == self.sessions@.len(),
                forall|k: int| 0 <= k < i ==> self@[k].0 != username@,
            decreases self.sessions@.len() - i,
        {
            if same_text(self.sessions[i].username.as_str(), username) {
                return Some(i);
            }
            i += 1;
        }
        None
    }

    /// Puts `username` in voice channel `channel`, dropping any session it had.
    pub fn join_voice_channel(&mut self, username: String, channel: String)
        requires
            old(self).wf(),
        ensures
            final(self).wf(),
            final(self)@ == after_voice_join(old(self)@, username@, channel@),
    {
        let ghost before = self@;
        let s = VoiceSession::new(username.clone(), channel);
        match self.position(username.as_str()) {
            Some(i) => {
                self.sessions.set(i, s);
                assert forall|k: int| 0 <= k < before.len() && k != i implies before[k].0
                    != username@ by {
                    if k < i {
                        assert(before[k].0 != before[i as int].0);
                    } else {
                        assert(before[i as int].0 != before[k].0);
                    }
                }
                assert(self@ =~= after_voice_join(before, username@, s.channel@));
            },
            None => {
                self.sessions.push(s);
                assert(self@ =~= after_voice_join(before, username@, s.channel@));
            },
        }
    }

    /// Ends the session of `username`; whether there was one.
    pub fn leave_voice_channel(&mut self, username: &str) -> (r: bool)
        requires
            old(self).wf(),
        ensures
            final(self).wf(),
            r == in_voice(old(self)@, username@),
            voice_left(old(self)@, final(self)@, username@),
    {
        let ghost before = self@;
        match self.position(username) {
            Some(i) => {
                self.sessions.remove(i);
                assert(self@ =~= before.remove(i as int));
                true
            },
            None => false,
        }
    }

    /// Flips the mute flag of `username`; the new flag, or nothing where
    /// `username` has no session.
    pub fn toggle_mute(&mut self, username: &str) -> (r: Option<bool>)
        requires
            old(self).wf(),
        ensures
            final(self).wf(),
            r is Some == in_voice(old(self)@, username@),
            forall|i: int|
                0 <= i < old(self)@.len() && old(self)@[i].0 == username@ ==> r == Some(
                    !old(self)@[i].2,
                ),
            final(self)@ == after_toggle_mute(old(self)@, username@),
    {
        let ghost before = self@;
        match self.position(username) {
            Some(i) => {
                let s = &self.sessions[i];
                let ns = VoiceSession {
                    username: s.username.clone(),
                    channel: s.channel.clone(),
                    is_muted: !s.is_muted,
                    is_deafened: s.is_deafened,
                };
                let m = ns.is_muted;
                self.sessions.set(i, ns);
                assert forall|k: int| 0 <= k < before.len() && k != i implies before[k].0
                    != username@ by {
                    if k < i {
                        assert(before[k].0 != before[i as int].0);
                    } else {
                        assert(before[i as int].0 != before[k].0);
                    }
                }
                assert(self@ =~= after_toggle_mute(before, username@));
                Some(m)
            },
            None => {
                assert(self@ =~= after_toggle_mute(before, username@));
                None
            },
        }
    }

    /// Flips the deafened flag of `username`; deafening also mutes. The new
    /// deafened flag, or nothing where `username` has no session.
    pub fn toggle_deafen(&mut self, username: &str) -> (r: Option<bool>)
        requires
            old(self).wf(),
        ensures
            final(self).wf(),
            r is Some == in_voice(old(self)@, username@),
            forall|i: int|
                0 <= i < old(self)@.len() && old(self)@[i].0 == username@ ==> {
                    &&& r == Some(!old(self)@[i].3)
                    &&& final(self)@[i].3 == !old(self)@[i].3
                    &&& r == Some(true) ==> final(self)@[i].2
                    &&& r == Some(false) ==> final(self)@[i].2 == old(self)@[i].2
                },
            final(self)@ == after_toggle_deafen(old(self)@, username@),
    {
        let ghost before = self@;
        match self.position(username) {
            Some(i) => {
                let s = &self.sessions[i];
                let deaf = !s.is_deafened;
                let ns = VoiceSession {
                    username: s.username.clone(),
                    channel: s.channel.clone(),
                    is_muted: if deaf {
                        true
                    } else {
                        s.is_muted
                    },
                    is_deafened: deaf,
                };
                self.sessions.set(i, ns);
                assert forall|k: int| 0 <= k < before.len() && k != i implies before[k].0
                    != username@ by {
                    if k < i {
                        assert(before[k].0 != before[i as int].0);
                    } else {
                        assert(before[i as int].0 != before[k].0);
                    }
                }
                assert(self@ =~= after_toggle_deafen(before, username@));
                Some(deaf)
            },
            None => {
                assert(self@ =~= after_toggle_deafen(before, username@));
                None
            },
        }
    }

    /// The identities present in voice channel `channel`.
    pub fn get_channel_users(&self, channel: &str) -> (r: Vec<String>)
        ensures
            crate::text::views(r@) == users_in(self@, channel@),
    {
        let mut out: Vec<String> = Vec::new();
        let mut i: usize = 0;
        while i < self.sessions.len()
            invariant
                i <= self@.len(),
                self@.len() == self.sessions@.len(),
                crate::text::views(out@) == users_in(self@.subrange(0, i as int), channel@),
            decreases self.sessions@.len() - i,
        {
            let ghost next = self@.subrange(0, i + 1);
            assert(next.drop_last() =~= self@.subrange(0, i as int));
            let s = &self.sessions[i];
            if same_text(s.channel.as_str(), channel) {
                let u = s.username.clone();
                assert(crate::text::views(out@.push(u)) =~= crate::text::views(out@).push(u@));
                out.push(u);
            }
            i += 1;
        }
        assert(self@.subrange(0, self@.len() as int) =~= self@);
        out
    }

    /// The session of `username`, if any.
    pub fn get_user_session(&self, username: &str) -> (r: Option<&VoiceSession>)
        ensures
            r is Some == in_voice(self@, username@),
            r matches Some(s) ==> s.username@ == username@ && self@.contains(s.entry()),
    {
        match self.position(username) {
            Some(i) => {
                assert(self@[i as int] == self.sessions@[i as int].entry());
                Some(&self.sessions[i])
            },
            None => None,
        }
    }

    /// Every voice session.
    pub fn list_all_sessions(&self) -> (r: Vec<&VoiceSession>)
        ensures
            r@.len() == self@.len(),
            forall|i: int| 0 <= i < r@.len() ==> (#[trigger] r@[i]).entry() == self@[i],
    {
        let mut out: Vec<&VoiceSession> = Vec::new();
        let mut i: usize = 0;
        while i < self.sessions.len()
            invariant
                i <= self@.len(),
                self@.len() == self.sessions@.len(),
                out@.len() == i,
                forall|k: int| 0 <= k < i ==> (#[trigger] out@[k]).entry() == self@[k],
            decreases self.sessions@.len() - i,
        {
            out.push(&self.sessions[i]);
            i += 1;
        }
        out
    }
}

} // verus!
