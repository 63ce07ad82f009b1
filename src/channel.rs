use vstd::prelude::*;
use vstd::string::*;
use crate::text::{same_text, views};

verus! {

broadcast use vstd::string::group_string_axioms;

#[derive(Debug, Clone, Copy, PartialEq, Eq, Structural)]
pub enum ChannelType {
    Text,
    Voice,
}

/// A named room: its kind never changes, its members are identities.
#[derive(Debug, Clone)]
pub struct Channel {
    pub name: String,
    pub channel_type: ChannelType,
    pub users: Vec<String>,
}

/// What a channel is to the contracts: its name, its kind and its members.
pub type ChannelEntry = (Seq<char>, ChannelType, Seq<Seq<char>>);

impl Channel {
    pub open spec fn entry(self) -> ChannelEntry {
        (self.name@, self.channel_type, views(self.users@))
    }

    pub fn new(name: String, channel_type: ChannelType) -> (r: Channel)
        ensures
            r.name == name,
            r.channel_type == channel_type,
            r.users@.len() == 0,
    {
        Channel { name, channel_type, users: Vec::new() }
    }
}

pub open spec fn entries(v: Seq<Channel>) -> Seq<ChannelEntry> {
    v.map_values(|c: Channel| c.entry())
}

pub open spec fn has_channel(v: Seq<ChannelEntry>, name: Seq<char>) -> bool {
    exists|i: int| 0 <= i < v.len() && #[trigger] v[i].0 == name
}

/// The channel named `name`, where there is one.
pub open spec fn find_channel(v: Seq<ChannelEntry>, name: Seq<char>) -> ChannelEntry {
    v[choose|i: int| 0 <= i < v.len() && #[trigger] v[i].0 == name]
}

/// The members of channel `name`; none where there is no such channel.
pub open spec fn members_of(v: Seq<ChannelEntry>, name: Seq<char>) -> Seq<Seq<char>> {
    if has_channel(v, name) {
        find_channel(v, name).2
    } else {
        Seq::empty()
    }
}

pub open spec fn unique_names(v: Seq<ChannelEntry>) -> bool {
    forall|i: int, j: int| 0 <= i < j < v.len() ==> #[trigger] v[i].0 != #[trigger] v[j].0
}

/// The members after `u` joins: unchanged when `u` is already there.
pub open spec fn with_member(m: Seq<Seq<char>>, u: Seq<char>) -> Seq<Seq<char>> {
    if m.contains(u) {
        m
    } else {
        m.push(u)
    }
}

pub open spec fn differs_from(u: Seq<char>) -> spec_fn(Seq<char>) -> bool {
    |x: Seq<char>| x != u
}

/// The members after every occurrence of `u` left.
pub open spec fn without_member(m: Seq<Seq<char>>, u: Seq<char>) -> Seq<Seq<char>> {
    m.filter(differs_from(u))
}

pub open spec fn after_create(v: Seq<ChannelEntry>, name: Seq<char>, kind: ChannelType) -> Seq<
    ChannelEntry,
> {
    if has_channel(v, name) {
        v
    } else {
        v.push((name, kind, Seq::empty()))
    }
}

pub open spec fn after_join(v: Seq<ChannelEntry>, name: Seq<char>, u: Seq<char>) -> Seq<
    ChannelEntry,
> {
    Seq::new(
        v.len(),
        |i: int|
            if v[i].0 == name {
                (v[i].0, v[i].1, with_member(v[i].2, u))
            } else {
                v[i]
            },
    )
}

pub open spec fn after_leave(v: Seq<ChannelEntry>, name: Seq<char>, u: Seq<char>) -> Seq<
    ChannelEntry,
> {
    Seq::new(
        v.len(),
        |i: int|
            if v[i].0 == name {
                (v[i].0, v[i].1, without_member(v[i].2, u))
            } else {
                v[i]
            },
    )
}

pub open spec fn after_leave_all(v: Seq<ChannelEntry>, u: Seq<char>) -> Seq<ChannelEntry> {
    Seq::new(v.len(), |i: int| (v[i].0, v[i].1, without_member(v[i].2, u)))
}

/// The channels kept from `v` when only the first of each name stays.
pub open spec fn first_of_each(v: Seq<ChannelEntry>) -> Seq<ChannelEntry>
    decreases v.len(),
{
    if v.len() == 0 {
        v
    } else {
        let d = first_of_each(v.drop_last());
        if has_channel(d, v.last().0) {
            d
        } else {
            d.push(v.last())
        }
    }
}

pub open spec fn default_channels() -> Seq<ChannelEntry> {
    seq![
        ("general"@, ChannelType::Text, Seq::empty()),
        ("random"@, ChannelType::Text, Seq::empty()),
        ("voice-lobby"@, ChannelType::Voice, Seq::empty()),
        ("gaming"@, ChannelType::Voice, Seq::empty()),
    ]
}

/// With unique names, the channel found under a name is the one at the
/// index that holds it.
pub proof fn lemma_find_channel_at(v: Seq<ChannelEntry>, i: int, x: Seq<char>)
    requires
        unique_names(v),
        0 <= i < v.len(),
        v[i].0 == x,
    ensures
        has_channel(v, x),
        find_channel(v, x) == v[i],
        members_of(v, x) == v[i].2,
{
    assert forall|k: int| 0 <= k < v.len() && #[trigger] v[k].0 == x implies k == i by {
        if k < i {
            assert(v[k].0 != v[i].0);
        } else if k > i {
            assert(v[i].0 != v[k].0);
        }
    }
}

/// After `u` leaves all channels, no channel has `u` among its members, and
/// each channel's member count is that of its other members.
pub proof fn lemma_leave_all_clears(v: Seq<ChannelEntry>, u: Seq<char>)
    ensures
        after_leave_all(v, u).len() == v.len(),
        forall|i: int| 0 <= i < v.len() ==> !(#[trigger] after_leave_all(v, u)[i]).2.contains(u),
        forall|i: int|
            0 <= i < v.len() ==> (#[trigger] after_leave_all(v, u)[i]).2.len() == v[i].2.filter(
                differs_from(u),
            ).len(),
{
    assert forall|i: int| 0 <= i < v.len() implies !(#[trigger] after_leave_all(v, u)[i]).2.contains(
        u,
    ) by {
        broadcast use vstd::seq_lib::group_filter_ensures;

        let f = v[i].2.filter(differs_from(u));
        if f.contains(u) {
            let k = choose|k: int| 0 <= k < f.len() && f[k] == u;
            assert(differs_from(u)(f[k]));
        }
    }
}

/// Creating a channel under a name already taken changes nothing: after a
/// first creation of `name`, a second one, of any kind, is refused and the
/// channel keeps the kind it was created with.
pub proof fn lemma_create_twice(
    v: Seq<ChannelEntry>,
    name: Seq<char>,
    first: ChannelType,
    second: ChannelType,
)
    ensures
        has_channel(after_create(v, name, first), name),
        after_create(after_create(v, name, first), name, second) == after_create(v, name, first),
        !has_channel(v, name) ==> find_channel(after_create(v, name, first), name).1 == first,
{
    let w = after_create(v, name, first);
    if !has_channel(v, name) {
        let last = v.len() as int;
        assert(w[last].0 == name);
        assert forall|j: int| 0 <= j < w.len() && #[trigger] w[j].0 == name implies j == last by {
            if j < last {
                assert(v[j].0 == name);
            }
        }
    }
}

/// Whether `u` is among the strings of `users`.
pub fn has_member(users: &Vec<String>, u: &str) -> (r: bool)
    ensures
        r == views(users@).contains(u@),
{
    let mut i: usize = 0;
    while i < users.len()
        invariant
            i <= users@.len(),
            forall|k: int| 0 <= k < i ==> users@[k]@ != u@,
        decreases users@.len() - i,
    {
        if same_text(users[i].as_str(), u) {
            assert(views(users@)[i as int] == u@);
            return true;
        }
        i += 1;
    }
    assert forall|k: int| 0 <= k < views(users@).len() implies views(users@)[k] != u@ by {
        assert(views(users@)[k] == users@[k]@);
    }
    false
}

/// The strings of `users` other than `u`, in their order.
pub fn members_without(users: &Vec<String>, u: &str) -> (r: Vec<String>)
    ensures
        views(r@) == without_member(views(users@), u@),
{
    let mut kept: Vec<String> = Vec::new();
    let mut i: usize = 0;
    while i < users.len()
        invariant
            i <= users@.len(),
            views(kept@) == views(users@.subrange(0, i as int)).filter(differs_from(u@)),
        decreases users@.len() - i,
    {
        let ghost pre = views(users@.subrange(0, i as int));
        let ghost next = views(users@.subrange(0, i + 1));
        assert(next.drop_last() =~= pre);
        assert(next.last() == users@[i as int]@);
        reveal(Seq::filter);
        if !same_text(users[i].as_str(), u) {
            let w = users[i].clone();
            assert(views(kept@.push(w)) =~= views(kept@).push(w@));
            kept.push(w);
        }
        i += 1;
    }
    assert(users@.subrange(0, users@.len() as int) =~= users@);
    kept
}

/// The channel directory: channel metadata and membership, with a unique name
/// per channel. `config_file` names the file that mirrors it.
pub struct ChannelManager {
    channels: Vec<Channel>,
    config_file: String,
}

impl View for ChannelManager {
    type V = Seq<ChannelEntry>;

    closed spec fn view(&self) -> Seq<ChannelEntry> {
        entries(self.channels@)
    }
}

impl ChannelManager {
    pub open spec fn wf(&self) -> bool {
        unique_names(self@)
    }

    pub closed spec fn config(&self) -> Seq<char> {
        self.config_file@
    }

    fn position(&self, name: &str) -> (r: Option<usize>)
        ensures
            match r {
                Some(i) => i < self@.len() && self@[i as int].0 == name@,
                None => !has_channel(self@, name@),
            },
    {
        let mut i: usize = 0;
        while i < self.channels.len()
            invariant
                i <= self@.len(),
                self@.len() == self.channels@.len(),
                forall|k: int| 0 <= k < i ==> self@[k].0 != name@,
            decreases self.channels@.len() - i,
        {
            if same_text(self.channels[i].name.as_str(), name) {
                return Some(i);
            }
            i += 1;
        }
        None
    }

    /// A directory holding the four default channels, mirrored to `config_file`.
    pub fn new_with_config(config_file: &str) -> (r: ChannelManager)
        ensures
            r.wf(),
            r@ == default_channels(),
            r.config() == config_file@,
    {
        let mut channels: Vec<Channel> = Vec::new();
        channels.push(Channel::new("general".to_owned(), ChannelType::Text));
        channels.push(Channel::new("random".to_owned(), ChannelType::Text));
        channels.push(Channel::new("voice-lobby".to_owned(), ChannelType::Voice));
        channels.push(Channel::new("gaming".to_owned(), ChannelType::Voice));
        let r = ChannelManager { channels, config_file: config_file.to_owned() };
        proof {
            reveal_strlit("general");
            reveal_strlit("random");
            reveal_strlit("voice-lobby");
            reveal_strlit("gaming");
            assert(views(Seq::<String>::empty()) =~= Seq::<Seq<char>>::empty());
            assert(r@[0] == default_channels()[0]);
            assert(r@[1] == default_channels()[1]);
            assert(r@[2] == default_channels()[2]);
            assert(r@[3] == default_channels()[3]);
            assert(r@ =~= default_channels());
            let d = default_channels();
            assert(d[0].0.len() == 7 && d[1].0.len() == 6 && d[2].0.len() == 11 && d[3].0.len() == 6);
            assert(d[1].0[0] == 'r' && d[3].0[0] == 'g');
        }
        r
    }

    /// A directory holding the four default channels, mirrored to `channels.json`.
    pub fn new() -> (r: ChannelManager)
        ensures
            r.wf(),
            r@ == default_channels(),
            r.config() == "channels.json"@,
    {
        ChannelManager::new_with_config("channels.json")
    }

    /// A directory holding `channels` as they were stored, the first of each
    /// name kept.
    pub fn from_channels(config_file: &str, channels: Vec<Channel>) -> (r: ChannelManager)
        ensures
            r.wf(),
            r@ == first_of_each(entries(channels@)),
            r.config() == config_file@,
    {
        let ghost input = entries(channels@);
        let mut rest = channels;
        let mut r = ChannelManager { channels: Vec::new(), config_file: config_file.to_owned() };
        let ghost mut taken: int = 0;
        assert(r@ =~= first_of_each(input.subrange(0, 0)));
        while rest.len() > 0
            invariant
                0 <= taken <= input.len(),
                entries(rest@) == input.subrange(taken, input.len() as int),
                r@ == first_of_each(input.subrange(0, taken)),
                r.wf(),
                r.config() == config_file@,
            decreases rest@.len(),
        {
            let ghost old_rest = rest@;
            assert(entries(old_rest).len() == old_rest.len());
            assert(taken < input.len());
            let c = rest.remove(0);
            assert(input.subrange(0, taken + 1).drop_last() =~= input.subrange(0, taken));
            assert(input[taken] == c.entry()) by {
                assert(entries(old_rest)[0] == input.subrange(taken, input.len() as int)[0]);
            }
            match r.position(c.name.as_str()) {
                Some(_) => {},
                None => {
                    proof {
                        assert(entries(r.channels@.push(c)) =~= entries(r.channels@).push(
                            c.entry(),
                        ));
                    }
                    r.channels.push(c);
                },
            }
            proof {
                assert forall|j: int| 0 <= j < rest@.len() implies entries(rest@)[j] == entries(old_rest)[j + 1] by {
                    assert(rest@[j] == old_rest[j + 1]);
                }
                taken = taken + 1;
                assert(entries(rest@) =~= input.subrange(taken, input.len() as int));
            }
        }
        assert(input.subrange(0, input.len() as int) =~= input);
        r
    }

    /// Adds an empty channel; false, with nothing changed, where the name is taken.
    pub fn create_channel(&mut self, name: &str, channel_type: ChannelType) -> (r: bool)
        requires
            old(self).wf(),
        ensures
            final(self).wf(),
            r == !has_channel(old(self)@, name@),
            final(self)@ == after_create(old(self)@, name@, channel_type),
            final(self).config() == old(self).config(),
    {
        match self.position(name) {
            Some(_) => false,
            None => {
                let c = Channel::new(name.to_owned(), channel_type);
                proof {
                    assert(views(c.users@) =~= Seq::<Seq<char>>::empty());
                    assert(entries(self.channels@.push(c)) =~= entries(self.channels@).push(
                        c.entry(),
                    ));
                }
                self.channels.push(c);
                true
            },
        }
    }

    pub fn channel_exists(&self, name: &str) -> (r: bool)
        ensures
            r == has_channel(self@, name@),
    {
        self.position(name).is_some()
    }

    /// The channel of that name, if any.
    pub fn get_channel(&self, name: &str) -> (r: Option<&Channel>)
        requires
            self.wf(),
        ensures
            r is Some == has_channel(self@, name@),
            r matches Some(c) ==> c.entry() == find_channel(self@, name@),
    {
        match self.position(name) {
            Some(i) => {
                assert(self@[i as int] == self.channels@[i as int].entry());
                assert forall|k: int| 0 <= k < self@.len() && #[trigger] self@[k].0 == name@ implies k
                    == i by {
                    if k < i {
                        assert(self@[k].0 != self@[i as int].0);
                    } else if k > i {
                        assert(self@[i as int].0 != self@[k].0);
                    }
                }
                Some(&self.channels[i])
            },
            None => None,
        }
    }

    /// Adds `username` to the channel's members; nothing changes where the
    /// channel does not exist or already holds `username`.
    pub fn join_channel(&mut self, channel_name: &str, username: String)
        requires
            old(self).wf(),
        ensures
            final(self).wf(),
            final(self)@ == after_join(old(self)@, channel_name@, username@),
            final(self).config() == old(self).config(),
    {
        let ghost before = self@;
        match self.position(channel_name) {
            Some(i) => {
                if !has_member(&self.channels[i].users, username.as_str()) {
                    let ghost users = self.channels@[i as int].users@;
                    self.channels[i].users.push(username);
                    assert(views(users.push(username)) =~= views(users).push(username@));
                }
                assert(self@ =~= after_join(before, channel_name@, username@)) by {
                    assert forall|k: int| 0 <= k < before.len() && k != i implies before[k].0
                        != channel_name@ by {
                        if k < i {
                            assert(before[k].0 != before[i as int].0);
                        } else {
                            assert(before[i as int].0 != before[k].0);
                        }
                    }
                }
            },
            None => {
                assert(self@ =~= after_join(before, channel_name@, username@));
            },
        }
    }

    /// Removes every occurrence of `username` from the channel's members.
    pub fn leave_channel(&mut self, channel_name: &str, username: &str)
        requires
            old(self).wf(),
        ensures
            final(self).wf(),
            final(self)@ == after_leave(old(self)@, channel_name@, username@),
            final(self).config() == old(self).config(),
    {
        let ghost before = self@;
        match self.position(channel_name) {
            Some(i) => {
                let kept = members_without(&self.channels[i].users, username);
                self.channels[i].users = kept;
                assert(self@ =~= after_leave(before, channel_name@, username@)) by {
                    assert forall|k: int| 0 <= k < before.len() && k != i implies before[k].0
                        != channel_name@ by {
                        if k < i {
                            assert(before[k].0 != before[i as int].0);
                        } else {
                            assert(before[i as int].0 != before[k].0);
                        }
                    }
                }
            },
            None => {
                assert(self@ =~= after_leave(before, channel_name@, username@));
            },
        }
    }

    /// Removes `username` from the members of every channel.
    pub fn leave_all_channels(&mut self, username: &str)
        requires
            old(self).wf(),
        ensures
            final(self).wf(),
            final(self)@ == after_leave_all(old(self)@, username@),
            final(self).config() == old(self).config(),
    {
        let ghost before = self@;
        let mut i: usize = 0;
        while i < self.channels.len()
            invariant
                i <= self@.len(),
                self@.len() == before.len() == self.channels@.len(),
                self.config() == old(self).config(),
                forall|k: int|
                    0 <= k < i ==> #[trigger] self@[k] == after_leave_all(before, username@)[k],
                forall|k: int| i <= k < self@.len() ==> #[trigger] self@[k] == before[k],
            decreases self.channels@.len() - i,
        {
            let ghost prev = self.channels@;
            let ghost prev_view = self@;
            assert(prev_view[i as int] == before[i as int]);
            let kept = members_without(&self.channels[i].users, username);
            self.channels[i].users = kept;
            proof {
                assert(self.channels@[i as int].users@ == kept@);
                assert(self.channels@[i as int].name == prev[i as int].name);
                assert(self.channels@[i as int].channel_type == prev[i as int].channel_type);
                assert(self@[i as int] == after_leave_all(before, username@)[i as int]);
                assert forall|k: int| i < k < self@.len() implies #[trigger] self@[k] == before[k] by {
                    assert(self.channels@[k] == prev[k]);
                    assert(prev_view[k] == before[k]);
                }
                assert forall|k: int| 0 <= k < i implies #[trigger] self@[k] == after_leave_all(
                    before,
                    username@,
                )[k] by {
                    assert(self.channels@[k] == prev[k]);
                    assert(prev_view[k] == after_leave_all(before, username@)[k]);
                }
            }
            i += 1;
        }
        assert(self@ =~= after_leave_all(before, username@));
    }

    /// Each channel's name, kind and number of members.
    pub fn list_channels(&self) -> (r: Vec<(String, ChannelType, usize)>)
        ensures
            r@.len() == self@.len(),
            forall|i: int|
                0 <= i < r@.len() ==> {
                    &&& (#[trigger] r@[i]).0@ == self@[i].0
                    &&& r@[i].1 == self@[i].1
                    &&& r@[i].2 == self@[i].2.len()
                },
    {
        let mut out: Vec<(String, ChannelType, usize)> = Vec::new();
        let mut i: usize = 0;
        while i < self.channels.len()
            invariant
                i <= self@.len(),
                self@.len() == self.channels@.len(),
                out@.len() == i,
                forall|k: int|
                    0 <= k < i ==> {
                        &&& (#[trigger] out@[k]).0@ == self@[k].0
                        &&& out@[k].1 == self@[k].1
                        &&& out@[k].2 == self@[k].2.len()
                    },
            decreases self.channels@.len() - i,
        {
            let c = &self.channels[i];
            out.push((c.name.clone(), c.channel_type, c.users.len()));
            i += 1;
        }
        out
    }

    /// The channels as they stand, for mirroring to the config file.
    pub fn channels(&self) -> (r: &Vec<Channel>)
        ensures
            entries(r@) == self@,
    {
        &self.channels
    }

    pub fn config_file(&self) -> (r: &str)
        ensures
            r@ == self.config(),
    {
        self.config_file.as_str()
    }
}

} // verus!
