use vstd::prelude::*;

verus! {

/// The most connections served at once.
pub const MAX_CONNECTIONS: usize = 100;

/// The live state of one authenticated connection. The transport handle is
/// kept by the connection's owner under the same `id`.
#[derive(Debug, Clone)]
pub struct Session {
    pub id: u128,
    pub identity: String,
    pub current_channel: Option<String>,
}

/// A session to the contracts: identifier, identity, current channel.
pub type SessionEntry = (u128, Seq<char>, Option<Seq<char>>);

pub open spec fn opt_view(o: Option<String>) -> Option<Seq<char>> {
    match o {
        Some(s) => Some(s@),
        None => None,
    }
}

impl Session {
    pub open spec fn entry(self) -> SessionEntry {
        (self.id, self.identity@, opt_view(self.current_channel))
    }

    /// A session under identifier `id`, placed in "general".
    pub fn new(id: u128, identity: String) -> (r: Session)
        ensures
            r.id == id,
            r.identity == identity,
            opt_view(r.current_channel) == Some("general"@),
    {
        Session { id, identity, current_channel: Some("general".to_owned()) }
    }
}

pub open spec fn session_entries(v: Seq<Session>) -> Seq<SessionEntry> {
    v.map_values(|s: Session| s.entry())
}

pub open spec fn has_id(v: Seq<SessionEntry>, id: u128) -> bool {
    exists|i: int| 0 <= i < v.len() && #[trigger] v[i].0 == id
}

pub open spec fn unique_ids(v: Seq<SessionEntry>) -> bool {
    forall|i: int, j: int| 0 <= i < j < v.len() ==> #[trigger] v[i].0 != #[trigger] v[j].0
}

/// The current channel of session `id`; none where it is gone.
pub open spec fn current_of(v: Seq<SessionEntry>, id: u128) -> Option<Seq<char>> {
    if has_id(v, id) {
        v[choose|i: int| 0 <= i < v.len() && #[trigger] v[i].0 == id].2
    } else {
        None
    }
}

/// With unique identifiers, the current channel of `id` is the one of the
/// session at the index that holds it.
pub proof fn lemma_current_at(v: Seq<SessionEntry>, i: int, id: u128)
    requires
        unique_ids(v),
        0 <= i < v.len(),
        v[i].0 == id,
    ensures
        current_of(v, id) == v[i].2,
{
    assert(has_id(v, id));
    assert forall|k: int| 0 <= k < v.len() && #[trigger] v[k].0 == id implies k == i by {
        if k < i {
            assert(v[k].0 != v[i].0);
        } else if k > i {
            assert(v[i].0 != v[k].0);
        }
    }
}

/// `after` is `before` without the session `id`.
pub open spec fn removed(before: Seq<SessionEntry>, after: Seq<SessionEntry>, id: u128) -> bool {
    if has_id(before, id) {
        exists|i: int| 0 <= i < before.len() && before[i].0 == id && after == before.remove(i)
    } else {
        after == before
    }
}

/// `e` takes the place of the session with its identifier, or is added.
pub open spec fn after_insert(v: Seq<SessionEntry>, e: SessionEntry) -> Seq<SessionEntry> {
    if has_id(v, e.0) {
        Seq::new(v.len(), |i: int| if v[i].0 == e.0 { e } else { v[i] })
    } else {
        v.push(e)
    }
}

pub open spec fn after_set_channel(v: Seq<SessionEntry>, id: u128, c: Seq<char>) -> Seq<
    SessionEntry,
> {
    Seq::new(v.len(), |i: int| if v[i].0 == id { (v[i].0, v[i].1, Some(c)) } else { v[i] })
}

/// Whether the session `id` gets a message for a channel with `members`,
/// `exclude` left out.
pub open spec fn is_recipient(
    v: Seq<SessionEntry>,
    members: Seq<Seq<char>>,
    exclude: Option<u128>,
    id: u128,
) -> bool {
    &&& exists|i: int| 0 <= i < v.len() && #[trigger] v[i].0 == id && members.contains(v[i].1)
    &&& exclude != Some(id)
}

/// The session table: one entry per identifier.
pub struct SessionRegistry {
    sessions: Vec<Session>,
}

impl View for SessionRegistry {
    type V = Seq<SessionEntry>;

    closed spec fn view(&self) -> Seq<SessionEntry> {
        session_entries(self.sessions@)
    }
}

impl SessionRegistry {
    pub open spec fn wf(&self) -> bool {
        unique_ids(self@)
    }

    pub fn new() -> (r: SessionRegistry)
        ensures
            r.wf(),
            r@.len() == 0,
    {
        SessionRegistry { sessions: Vec::new() }
    }

    fn position(&self, id: u128) -> (r: Option<usize>)
        ensures
            match r {
                Some(i) => i < self@.len() && self@[i as int].0 == id,
                None => !has_id(self@, id),
            },
    {
        let mut i: usize = 0;
        while i < self.sessions.len()
            invariant
                i <= self@.len(),
                self@.len() == self.sessions@.len(),
                forall|k: int| 0 <= k < i ==> self@[k].0 != id,
            decreases self.sessions@.len() - i,
        {
            if self.sessions[i].id == id {
                return Some(i);
            }
            i += 1;
        }
        None
    }

    pub fn len(&self) -> (r: usize)
        ensures
            r == self@.len(),
    {
        self.sessions.len()
    }

    pub fn contains(&self, id: u128) -> (r: bool)
        ensures
            r == has_id(self@, id),
    {
        self.position(id).is_some()
    }

    /// Registers `session`, replacing any session with the same identifier.
    pub fn insert(&mut self, session: Session)
        requires
            old(self).wf(),
        ensures
            final(self).wf(),
            final(self)@ == after_insert(old(self)@, session.entry()),
    {
        let ghost before = self@;
        let ghost e = session.entry();
        match self.position(session.id) {
            Some(i) => {
                self.sessions.set(i, session);
                assert forall|k: int| 0 <= k < before.len() && k != i implies before[k].0 != e.0 by {
                    if k < i {
                        assert(before[k].0 != before[i as int].0);
                    } else {
                        assert(before[i as int].0 != before[k].0);
                    }
                }
                assert(self@ =~= after_insert(before, e));
            },
            None => {
                self.sessions.push(session);
                assert(self@ =~= after_insert(before, e));
            },
        }
    }

    /// Drops the session `id`; whether it was there. An absent identifier is
    /// no error: the connection may have gone already.
    pub fn remove(&mut self, id: u128) -> (r: bool)
        requires
            old(self).wf(),
        ensures
            final(self).wf(),
            r == has_id(old(self)@, id),
            removed(old(self)@, final(self)@, id),
            !has_id(final(self)@, id),
    {
        let ghost before = self@;
        match self.position(id) {
            Some(i) => {
                self.sessions.remove(i);
                assert(self@ =~= before.remove(i as int));
                assert forall|k: int| 0 <= k < self@.len() implies self@[k].0 != id by {
                    if k < i {
                        assert(before[k].0 != before[i as int].0);
                    } else {
                        assert(before[i as int].0 != before[k + 1].0);
                    }
                }
                true
            },
            None => false,
        }
    }

    /// The current channel of session `id`; nothing where the session is gone
    /// or has no channel.
    pub fn get_current_channel(&self, id: u128) -> (r: Option<String>)
        requires
            self.wf(),
        ensures
            opt_view(r) == current_of(self@, id),
    {
        match self.position(id) {
            Some(i) => {
                assert forall|k: int| 0 <= k < self@.len() && #[trigger] self@[k].0 == id implies k == i by {
                    if k < i {
                        assert(self@[k].0 != self@[i as int].0);
                    } else if k > i {
                        assert(self@[i as int].0 != self@[k].0);
                    }
                }
                match &self.sessions[i].current_channel {
                    Some(c) => Some(c.clone()),
                    None => None,
                }
            },
            None => None,
        }
    }

    /// Sets the current channel of session `id`; nothing happens where the
    /// session is gone.
    pub fn set_current_channel(&mut self, id: u128, channel: String)
        requires
            old(self).wf(),
        ensures
            final(self).wf(),
            final(self)@ == after_set_channel(old(self)@, id, channel@),
    {
        let ghost before = self@;
        match self.position(id) {
            Some(i) => {
                let s = &self.sessions[i];
                let ns = Session {
                    id: s.id,
                    identity: s.identity.clone(),
                    current_channel: Some(channel),
                };
                self.sessions.set(i, ns);
                assert forall|k: int| 0 <= k < before.len() && k != i implies before[k].0 != id by {
                    if k < i {
                        assert(before[k].0 != before[i as int].0);
                    } else {
                        assert(before[i as int].0 != before[k].0);
                    }
                }
                assert(self@ =~= after_set_channel(before, id, channel@));
            },
            None => {
                assert(self@ =~= after_set_channel(before, id, channel@));
            },
        }
    }

    /// The identifiers of the sessions whose identity is among `members`,
    /// `exclude` left out, each once.
    pub fn snapshot_for(&self, members: &Vec<String>, exclude: Option<u128>) -> (r: Vec<u128>)
        requires
            self.wf(),
        ensures
            r@.no_duplicates(),
            forall|id: u128|
                r@.contains(id) <==> is_recipient(self@, crate::text::views(members@), exclude, id),
    {
        let ghost ms = crate::text::views(members@);
        let mut out: Vec<u128> = Vec::new();
        let mut i: usize = 0;
        while i < self.sessions.len()
            invariant
                self.wf(),
                i <= self@.len(),
                self@.len() == self.sessions@.len(),
                ms == crate::text::views(members@),
                out@.no_duplicates(),
                forall|j: int| i <= j < self@.len() ==> !out@.contains(#[trigger] self@[j].0),
                forall|j: int|
                    0 <= j < i && ms.contains(self@[j].1) && exclude != Some(self@[j].0)
                        ==> out@.contains(#[trigger] self@[j].0),
                forall|id: u128|
                    #[trigger] out@.contains(id) ==> is_recipient(self@, ms, exclude, id),
            decreases self.sessions@.len() - i,
        {
            let s = &self.sessions[i];
            assert(self@[i as int] == s.entry());
            let wanted = crate::channel::has_member(members, s.identity.as_str());
            let skip = match exclude {
                Some(x) => x == s.id,
                None => false,
            };
            let ghost before = out@;
            if wanted && !skip {
                assert(!before.contains(self@[i as int].0));
                out.push(s.id);
            }
            proof {
                assert forall|x: u128| before.contains(x) implies out@.contains(x) by {
                    let k = choose|k: int| 0 <= k < before.len() && before[k] == x;
                    assert(out@[k] == x);
                }
                assert forall|j: int| i < j < self@.len() implies !out@.contains(
                    #[trigger] self@[j].0,
                ) by {
                    assert(self@[i as int].0 != self@[j].0);
                    assert(!before.contains(self@[j].0));
                    if out@.contains(self@[j].0) {
                        let k = choose|k: int| 0 <= k < out@.len() && out@[k] == self@[j].0;
                        if k < before.len() {
                            assert(before[k] == out@[k]);
                        }
                    }
                }
                assert forall|x: u128| #[trigger] out@.contains(x) implies is_recipient(
                    self@,
                    ms,
                    exclude,
                    x,
                ) by {
                    let k = choose|k: int| 0 <= k < out@.len() && out@[k] == x;
                    if k < before.len() {
                        assert(before[k] == x);
                        assert(before.contains(x));
                    } else {
                        assert(self@[i as int].0 == x);
                    }
                }
                if wanted && !skip {
                    assert(out@[before.len() as int] == self@[i as int].0);
                    assert(out@.contains(self@[i as int].0));
                }
            }
            i += 1;
        }
        proof {
            assert forall|id: u128|
                is_recipient(self@, ms, exclude, id) implies out@.contains(id) by {
                let j = choose|j: int|
                    0 <= j < self@.len() && #[trigger] self@[j].0 == id && ms.contains(self@[j].1);
                assert(out@.contains(self@[j].0));
            }
        }
        out
    }
}

/// The admission spec: a new connection is let in while fewer than `limit`
/// are served.
pub open spec fn admits(active: nat, limit: nat) -> bool {
    active < limit
}

pub open spec fn after_admit(active: nat, limit: nat) -> nat {
    if admits(active, limit) {
        active + 1
    } else {
        active
    }
}

pub open spec fn after_release(active: nat) -> nat {
    if active > 0 {
        (active - 1) as nat
    } else {
        0
    }
}

/// Admission control: a count of the connections served, bounded by `limit`.
pub struct ConnectionGate {
    active: usize,
    limit: usize,
}

impl ConnectionGate {
    pub closed spec fn active(&self) -> nat {
        self.active as nat
    }

    pub closed spec fn limit(&self) -> nat {
        self.limit as nat
    }

    pub open spec fn wf(&self) -> bool {
        self.active() <= self.limit()
    }

    pub fn new(limit: usize) -> (r: ConnectionGate)
        ensures
            r.wf(),
            r.active() == 0,
            r.limit() == limit,
    {
        ConnectionGate { active: 0, limit }
    }

    pub fn can_accept_connection(&self) -> (r: bool)
        ensures
            r == admits(self.active(), self.limit()),
    {
        self.active < self.limit
    }

    /// Takes a place for a new connection; false, with nothing changed, where
    /// all places are taken.
    pub fn increment_connection_count(&mut self) -> (r: bool)
        requires
            old(self).wf(),
        ensures
            final(self).wf(),
            r == admits(old(self).active(), old(self).limit()),
            final(self).active() == after_admit(old(self).active(), old(self).limit()),
            final(self).limit() == old(self).limit(),
    {
        if self.active < self.limit {
            self.active = self.active + 1;
            true
        } else {
            false
        }
    }

    /// Gives a place back; the count never goes below zero.
    pub fn decrement_connection_count(&mut self)
        requires
            old(self).wf(),
        ensures
            final(self).wf(),
            final(self).active() == after_release(old(self).active()),
            final(self).limit() == old(self).limit(),
    {
        if self.active > 0 {
            self.active = self.active - 1;
        }
    }

    pub fn active_connections(&self) -> (r: usize)
        ensures
            r == self.active(),
    {
        self.active
    }
}

/// Once `limit` connections are in, the next is refused, and after one of
/// them leaves a new one is let in again. Each admission below the limit
/// succeeds and counts one.
pub proof fn lemma_admission_control(limit: nat)
    ensures
        forall|k: nat| k < limit ==> admits(k, limit) && after_admit(k, limit) == k + 1,
        !admits(limit, limit),
        after_admit(limit, limit) == limit,
        limit > 0 ==> admits(after_release(limit), limit),
{
}

} // verus!
