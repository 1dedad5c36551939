//! Chat channels: static / script-defined public channels, player-created private
//! channels, and guild and party channels created on demand.
//!
//! Static channel ids: guild `0x00`, party `0x01`, rule report `0x02`; `0xFFFF` is the
//! base of the private channel ids.

use vstd::prelude::*;
use vstd::string::*;
use std::collections::{HashMap, HashSet};
use crate::ids::CreatureId;
use crate::maps::{hash_map_get_mut, least_key_u32, least_key_u64, least_u32, least_u64, map_keys};
use crate::text::{decimal, u64_to_decimal};

verus! {

broadcast use vstd::std_specs::hash::group_hash_axioms;

pub const CHANNEL_GUILD: u16 = 0x00;
pub const CHANNEL_PARTY: u16 = 0x01;
pub const CHANNEL_RULE_REP: u16 = 0x02;
pub const CHANNEL_PRIVATE: u16 = 0xFFFF;

/// A chat channel and the users joined to it.
pub struct ChatChannel {
    pub id: u16,
    pub name: String,
    pub public_channel: bool,
    pub users: HashSet<CreatureId>,
}

impl ChatChannel {
    pub fn new(id: u16, name: String) -> (c: ChatChannel)
        ensures
            c.id == id,
            c.name@ == name@,
            !c.public_channel,
            c.users@ == Set::<CreatureId>::empty(),
    {
        ChatChannel { id, name, public_channel: false, users: HashSet::new() }
    }

    /// Same channel, users aside.
    pub open spec fn same_but_users(self, other: ChatChannel) -> bool {
        self.id == other.id && self.name@ == other.name@ && self.public_channel == other.public_channel
    }
}

/// A player-created channel: its owner and the invited player guids.
pub struct PrivateChatChannel {
    pub base: ChatChannel,
    pub owner: CreatureId,
    pub invited: HashSet<u32>,
}

impl PrivateChatChannel {
    pub fn new(id: u16, name: String, owner: CreatureId) -> (c: PrivateChatChannel)
        ensures
            c.base.id == id,
            c.base.name@ == name@,
            !c.base.public_channel,
            c.base.users@ == Set::<CreatureId>::empty(),
            c.owner == owner,
            c.invited@ == Set::<u32>::empty(),
    {
        PrivateChatChannel { base: ChatChannel::new(id, name), owner, invited: HashSet::new() }
    }
}

/// Channels of a map, relation of an update: every channel `k` satisfies `f(old[k], new[k])`
/// when `pick(k)`, and is unchanged otherwise.
pub open spec fn channels_updated<K>(
    old: Map<K, ChatChannel>,
    new: Map<K, ChatChannel>,
    pick: spec_fn(K) -> bool,
    users_after: spec_fn(Set<CreatureId>) -> Set<CreatureId>,
) -> bool {
    &&& new.dom() == old.dom()
    &&& forall|k: K| #[trigger] old.contains_key(k) ==> (if pick(k) {
        new[k].same_but_users(old[k]) && new[k].users@ == users_after(old[k].users@)
    } else {
        new[k] == old[k]
    })
}

/// Private channels after the same kind of update on their base channels.
pub open spec fn private_updated(
    old: Map<u16, PrivateChatChannel>,
    new: Map<u16, PrivateChatChannel>,
    pick: spec_fn(u16) -> bool,
    users_after: spec_fn(Set<CreatureId>) -> Set<CreatureId>,
) -> bool {
    &&& new.dom() == old.dom()
    &&& forall|k: u16| #[trigger] old.contains_key(k) ==> (if pick(k) {
        new[k].base.same_but_users(old[k].base) && new[k].base.users@ == users_after(old[k].base.users@)
            && new[k].owner == old[k].owner && new[k].invited@ == old[k].invited@
    } else {
        new[k] == old[k]
    })
}

/// The users with `u` joined.
pub open spec fn with_user(u: CreatureId) -> spec_fn(Set<CreatureId>) -> Set<CreatureId> {
    |s: Set<CreatureId>| s.insert(u)
}

/// The users without `u`.
pub open spec fn without_user(u: CreatureId) -> spec_fn(Set<CreatureId>) -> Set<CreatureId> {
    |s: Set<CreatureId>| s.remove(u)
}

/// Whether `u` is among the users.
pub open spec fn has_user(u: CreatureId) -> spec_fn(Set<CreatureId>) -> bool {
    |s: Set<CreatureId>| s.contains(u)
}

/// True of any users.
pub open spec fn any_users() -> spec_fn(Set<CreatureId>) -> bool {
    |s: Set<CreatureId>| true
}

/// Adds (`add`) or removes `u` among the users of channel `k` of `m`; true when added, or
/// when `u` was there to remove.
fn change_users_in<K: Copy + Eq + std::hash::Hash>(m: &mut HashMap<K, ChatChannel>, k: K, u: CreatureId, add: bool) -> (r: bool)
    requires
        vstd::std_specs::hash::obeys_key_model::<K>(),
        old(m)@.contains_key(k),
    ensures
        add ==> channels_updated(old(m)@, final(m)@, |j: K| j == k, with_user(u)) && r,
        !add ==> channels_updated(old(m)@, final(m)@, |j: K| j == k, without_user(u))
            && r == old(m)@[k].users@.contains(u),
{
    let ghost m0 = m@;
    let r = match hash_map_get_mut(m, &k) {
        Some(c) => {
            if add {
                c.users.insert(u);
                true
            } else {
                c.users.remove(&u)
            }
        },
        None => false,
    };
    assert(m@.dom() =~= m0.dom());
    r
}

/// `change_users_in` for the private channels.
fn change_private_users(m: &mut HashMap<u16, PrivateChatChannel>, k: u16, u: CreatureId, add: bool) -> (r: bool)
    requires
        old(m)@.contains_key(k),
    ensures
        add ==> private_updated(old(m)@, final(m)@, |j: u16| j == k, with_user(u)) && r,
        !add ==> private_updated(old(m)@, final(m)@, |j: u16| j == k, without_user(u))
            && r == old(m)@[k].base.users@.contains(u),
{
    let ghost m0 = m@;
    let r = match hash_map_get_mut(m, &k) {
        Some(c) => {
            if add {
                c.base.users.insert(u);
                true
            } else {
                c.base.users.remove(&u)
            }
        },
        None => false,
    };
    assert(m@.dom() =~= m0.dom());
    r
}

/// Removes `u` from the users of every channel of `m`.
fn remove_user_everywhere<K: Copy + Eq + std::hash::Hash>(m: &mut HashMap<K, ChatChannel>, u: CreatureId)
    requires
        vstd::std_specs::hash::obeys_key_model::<K>(),
    ensures
        channels_updated(old(m)@, final(m)@, |j: K| true, without_user(u)),
{
    let ghost m0 = m@;
    let ks = map_keys(m);
    let mut i: usize = 0;
    while i < ks.len()
        invariant
            vstd::std_specs::hash::obeys_key_model::<K>(),
            i <= ks@.len(),
            ks@.to_set() == m0.dom(),
            ks@.no_duplicates(),
            channels_updated(m0, m@, |j: K| ks@.subrange(0, i as int).contains(j), without_user(u)),
        decreases ks@.len() - i,
    {
        let k = ks[i];
        proof {
            assert(ks@.to_set().contains(k));
            assert(!ks@.subrange(0, i as int).contains(k)) by {
                if ks@.subrange(0, i as int).contains(k) {
                    let t = choose|t: int| 0 <= t < i && ks@.subrange(0, i as int)[t] == k;
                    assert(ks@[t] == ks@[i as int]);
                }
            }
        }
        change_users_in(m, k, u, false);
        proof {
            let n: int = i + 1;
            assert forall|j: K| #[trigger] m0.contains_key(j) implies
                (if ks@.subrange(0, n).contains(j) {
                    m@[j].same_but_users(m0[j]) && m@[j].users@ == without_user(u)(m0[j].users@)
                } else {
                    m@[j] == m0[j]
                }) by {
                if j == k {
                    assert(ks@.subrange(0, n)[i as int] == k);
                } else {
                    assert(ks@.subrange(0, n).contains(j) == ks@.subrange(0, i as int).contains(j)) by {
                        if ks@.subrange(0, n).contains(j) {
                            let t = choose|t: int| 0 <= t < n && ks@.subrange(0, n)[t] == j;
                            assert(ks@.subrange(0, i as int)[t] == j);
                        }
                        if ks@.subrange(0, i as int).contains(j) {
                            let t = choose|t: int| 0 <= t < i && ks@.subrange(0, i as int)[t] == j;
                            assert(ks@.subrange(0, n)[t] == j);
                        }
                    }
                }
            }
        }
        i = i + 1;
    }
    proof {
        assert forall|j: K| #[trigger] m0.contains_key(j) implies ks@.subrange(0, i as int).contains(j) by {
            assert(ks@.subrange(0, i as int) =~= ks@);
            assert(ks@.to_set().contains(j));
        }
    }
}

/// `remove_user_everywhere` for the private channels.
fn remove_private_user_everywhere(m: &mut HashMap<u16, PrivateChatChannel>, u: CreatureId)
    ensures
        private_updated(old(m)@, final(m)@, |j: u16| true, without_user(u)),
{
    let ghost m0 = m@;
    let ks = map_keys(m);
    let mut i: usize = 0;
    while i < ks.len()
        invariant
            i <= ks@.len(),
            ks@.to_set() == m0.dom(),
            ks@.no_duplicates(),
            private_updated(m0, m@, |j: u16| ks@.subrange(0, i as int).contains(j), without_user(u)),
        decreases ks@.len() - i,
    {
        let k = ks[i];
        proof {
            assert(ks@.to_set().contains(k));
            assert(!ks@.subrange(0, i as int).contains(k)) by {
                if ks@.subrange(0, i as int).contains(k) {
                    let t = choose|t: int| 0 <= t < i && ks@.subrange(0, i as int)[t] == k;
                    assert(ks@[t] == ks@[i as int]);
                }
            }
        }
        change_private_users(m, k, u, false);
        proof {
            let n: int = i + 1;
            assert forall|j: u16| #[trigger] m0.contains_key(j) implies
                (if ks@.subrange(0, n).contains(j) {
                    m@[j].base.same_but_users(m0[j].base) && m@[j].base.users@ == without_user(u)(m0[j].base.users@)
                        && m@[j].owner == m0[j].owner && m@[j].invited@ == m0[j].invited@
                } else {
                    m@[j] == m0[j]
                }) by {
                if j == k {
                    assert(ks@.subrange(0, n)[i as int] == k);
                } else {
                    assert(ks@.subrange(0, n).contains(j) == ks@.subrange(0, i as int).contains(j)) by {
                        if ks@.subrange(0, n).contains(j) {
                            let t = choose|t: int| 0 <= t < n && ks@.subrange(0, n)[t] == j;
                            assert(ks@.subrange(0, i as int)[t] == j);
                        }
                        if ks@.subrange(0, i as int).contains(j) {
                            let t = choose|t: int| 0 <= t < i && ks@.subrange(0, i as int)[t] == j;
                            assert(ks@.subrange(0, n)[t] == j);
                        }
                    }
                }
            }
        }
        i = i + 1;
    }
    proof {
        assert forall|j: u16| #[trigger] m0.contains_key(j) implies ks@.subrange(0, i as int).contains(j) by {
            assert(ks@.subrange(0, i as int) =~= ks@);
            assert(ks@.to_set().contains(j));
        }
    }
}

/// Where a lookup of a channel id lands, with the key of the channel it picks.
enum ChannelKey {
    Normal,
    Private,
    Guild(u32),
    Party(CreatureId),
    Missing,
}

/// `c` is a channel just made with `id` and `name`: not public, nobody joined.
pub open spec fn fresh_channel(c: ChatChannel, id: u16, name: Seq<char>) -> bool {
    c.id == id && c.name@ == name && !c.public_channel && c.users@ == Set::<CreatureId>::empty()
}

/// `c` is a private channel just made with `id`, `name` and `owner`: nobody joined or invited.
pub open spec fn fresh_private_channel(c: PrivateChatChannel, id: u16, name: Seq<char>, owner: CreatureId) -> bool {
    fresh_channel(c.base, id, name) && c.owner == owner && c.invited@ == Set::<u32>::empty()
}

/// Name of the private channel with `id`.
pub open spec fn private_channel_name(id: u16) -> Seq<char> {
    "Private Channel "@ + decimal(id as nat)
}

/// A channel list as ids and names.
pub open spec fn list_view(v: Seq<(u16, String)>) -> Seq<(u16, Seq<char>)> {
    v.map_values(|e: (u16, String)| (e.0, e.1@))
}

/// Inserts `x` into the strictly ascending `v` unless it is there.
fn insert_sorted(v: &mut Vec<u16>, x: u16)
    requires
        forall|i: int, j: int| 0 <= i < j < old(v)@.len() ==> old(v)@[i] < old(v)@[j],
    ensures
        forall|i: int, j: int| 0 <= i < j < final(v)@.len() ==> final(v)@[i] < final(v)@[j],
        final(v)@.to_set() == old(v)@.to_set().insert(x),
{
    let mut p: usize = 0;
    while p < v.len() && v[p] < x
        invariant
            p <= v@.len(),
            forall|i: int| 0 <= i < p ==> v@[i] < x,
        decreases v@.len() - p,
    {
        p = p + 1;
    }
    if p < v.len() && v[p] == x {
        assert(v@.to_set().insert(x) =~= v@.to_set()) by {
            assert(v@.to_set().contains(v@[p as int]));
        }
        return;
    }
    let ghost v0 = v@;
    v.insert(p, x);
    assert(v@.to_set() =~= v0.to_set().insert(x)) by {
        assert forall|y: u16| v@.to_set().contains(y) <==> v0.to_set().insert(x).contains(y) by {
            if v@.to_set().contains(y) {
                let t = choose|t: int| 0 <= t < v@.len() && v@[t] == y;
                if t < p {
                    assert(v0.contains(y));
                } else if t > p {
                    assert(v0[t - 1] == y);
                    assert(v0.contains(y));
                }
            }
            if v0.to_set().contains(y) {
                let t = choose|t: int| 0 <= t < v0.len() && v0[t] == y;
                if t < p {
                    assert(v@[t] == y);
                } else {
                    assert(v@[t + 1] == y);
                }
            }
            if y == x {
                assert(v@[p as int] == x);
            }
        }
    }
}

/// Which channel a lookup by id finds.
pub enum ChannelSlot {
    Normal,
    Private,
    /// The guild channel with the smallest guild id.
    Guild,
    /// The party channel with the smallest party leader id.
    Party,
    Missing,
}

/// The owner of all channels.
pub struct ChatRegistry {
    /// Static and script-defined channels by id.
    pub normal_channels: HashMap<u16, ChatChannel>,
    /// Player-created channels by id.
    pub private_channels: HashMap<u16, PrivateChatChannel>,
    /// Guild channels by guild id.
    pub guild_channels: HashMap<u32, ChatChannel>,
    /// Party channels by party leader.
    pub party_channels: HashMap<CreatureId, ChatChannel>,
    /// Id of the next private channel.
    pub next_private_channel_id: u16,
}

impl ChatRegistry {
    /// Where a lookup of channel `id` goes: normal channels first, then private ones,
    /// then (for the guild / party ids) the guild / party channel with the smallest key.
    pub open spec fn slot_of(self, id: u16) -> ChannelSlot {
        if self.normal_channels@.contains_key(id) {
            ChannelSlot::Normal
        } else if self.private_channels@.contains_key(id) {
            ChannelSlot::Private
        } else if id == CHANNEL_GUILD && !self.guild_channels@.is_empty() {
            ChannelSlot::Guild
        } else if id == CHANNEL_PARTY && !self.party_channels@.is_empty() {
            ChannelSlot::Party
        } else {
            ChannelSlot::Missing
        }
    }

    /// The guild id whose channel a lookup of the guild id picks.
    pub open spec fn guild_key(self) -> u32 {
        least_u32(self.guild_channels@.dom())
    }

    /// The party leader whose channel a lookup of the party id picks.
    pub open spec fn party_key(self) -> CreatureId {
        least_u64(self.party_channels@.dom())
    }

    /// The users of the channel that a lookup of `id` finds; none when it finds nothing.
    pub open spec fn users_of(self, id: u16) -> Set<CreatureId> {
        match self.slot_of(id) {
            ChannelSlot::Normal => self.normal_channels@[id].users@,
            ChannelSlot::Private => self.private_channels@[id].base.users@,
            ChannelSlot::Guild => self.guild_channels@[self.guild_key()].users@,
            ChannelSlot::Party => self.party_channels@[self.party_key()].users@,
            ChannelSlot::Missing => Set::<CreatureId>::empty(),
        }
    }

    pub fn new() -> (r: ChatRegistry)
        ensures
            r.normal_channels@ == Map::<u16, ChatChannel>::empty(),
            r.private_channels@ == Map::<u16, PrivateChatChannel>::empty(),
            r.guild_channels@ == Map::<u32, ChatChannel>::empty(),
            r.party_channels@ == Map::<CreatureId, ChatChannel>::empty(),
            r.next_private_channel_id == CHANNEL_PRIVATE,
    {
        ChatRegistry {
            normal_channels: HashMap::new(),
            private_channels: HashMap::new(),
            guild_channels: HashMap::new(),
            party_channels: HashMap::new(),
            next_private_channel_id: CHANNEL_PRIVATE,
        }
    }

    /// Adds (or replaces) a normal channel under its id.
    pub fn add_normal_channel(&mut self, channel: ChatChannel)
        ensures
            final(self).normal_channels@ == old(self).normal_channels@.insert(channel.id, channel),
            final(self).private_channels@ == old(self).private_channels@,
            final(self).guild_channels@ == old(self).guild_channels@,
            final(self).party_channels@ == old(self).party_channels@,
            final(self).next_private_channel_id == old(self).next_private_channel_id,
    {
        let id = channel.id;
        self.normal_channels.insert(id, channel);
    }

    /// The channel with `id`: a normal channel, else a private channel, else for the
    /// guild / party id the guild / party channel with the smallest key.
    pub fn get_channel(&self, id: u16) -> (r: Option<&ChatChannel>)
        ensures
            match self.slot_of(id) {
                ChannelSlot::Normal => r == Some(&self.normal_channels@[id]),
                ChannelSlot::Private => r == Some(&self.private_channels@[id].base),
                ChannelSlot::Guild => r == Some(&self.guild_channels@[self.guild_key()]),
                ChannelSlot::Party => r == Some(&self.party_channels@[self.party_key()]),
                ChannelSlot::Missing => r is None,
            },
    {
        if let Some(c) = self.normal_channels.get(&id) {
            return Some(c);
        }
        if let Some(p) = self.private_channels.get(&id) {
            return Some(&p.base);
        }
        if id == CHANNEL_GUILD {
            match least_key_u32(&self.guild_channels) {
                Some(g) => self.guild_channels.get(&g),
                None => None,
            }
        } else if id == CHANNEL_PARTY {
            match least_key_u64(&self.party_channels) {
                Some(l) => self.party_channels.get(&l),
                None => None,
            }
        } else {
            None
        }
    }

    /// `new` is `self` with the users of the channel that a lookup of `id` finds
    /// replaced by `users_after` of them, and `r` tells `hit` of that channel's old users;
    /// when the lookup finds nothing, `new` is `self` and `r` is false.
    pub open spec fn users_updated(
        self,
        new: ChatRegistry,
        id: u16,
        users_after: spec_fn(Set<CreatureId>) -> Set<CreatureId>,
        hit: spec_fn(Set<CreatureId>) -> bool,
        r: bool,
    ) -> bool {
        &&& new.next_private_channel_id == self.next_private_channel_id
        &&& match self.slot_of(id) {
            ChannelSlot::Normal => {
                &&& channels_updated(self.normal_channels@, new.normal_channels@, |k: u16| k == id, users_after)
                &&& r == hit(self.normal_channels@[id].users@)
                &&& new.private_channels@ == self.private_channels@
                &&& new.guild_channels@ == self.guild_channels@
                &&& new.party_channels@ == self.party_channels@
            },
            ChannelSlot::Private => {
                &&& private_updated(self.private_channels@, new.private_channels@, |k: u16| k == id, users_after)
                &&& r == hit(self.private_channels@[id].base.users@)
                &&& new.normal_channels@ == self.normal_channels@
                &&& new.guild_channels@ == self.guild_channels@
                &&& new.party_channels@ == self.party_channels@
            },
            ChannelSlot::Guild => {
                &&& channels_updated(self.guild_channels@, new.guild_channels@, |k: u32| k == self.guild_key(), users_after)
                &&& r == hit(self.guild_channels@[self.guild_key()].users@)
                &&& new.normal_channels@ == self.normal_channels@
                &&& new.private_channels@ == self.private_channels@
                &&& new.party_channels@ == self.party_channels@
            },
            ChannelSlot::Party => {
                &&& channels_updated(self.party_channels@, new.party_channels@, |k: CreatureId| k == self.party_key(), users_after)
                &&& r == hit(self.party_channels@[self.party_key()].users@)
                &&& new.normal_channels@ == self.normal_channels@
                &&& new.private_channels@ == self.private_channels@
                &&& new.guild_channels@ == self.guild_channels@
            },
            ChannelSlot::Missing => {
                &&& !r
                &&& new.normal_channels@ == self.normal_channels@
                &&& new.private_channels@ == self.private_channels@
                &&& new.guild_channels@ == self.guild_channels@
                &&& new.party_channels@ == self.party_channels@
            },
        }
    }

    /// The channel with `id`, to change in place; found as by `get_channel`.
    pub fn get_channel_mut(&mut self, id: u16) -> (r: Option<&mut ChatChannel>)
        ensures
            final(self).next_private_channel_id == old(self).next_private_channel_id,
            match old(self).slot_of(id) {
                ChannelSlot::Normal => r matches Some(c) && *c == old(self).normal_channels@[id]
                    && final(self).normal_channels@ == old(self).normal_channels@.insert(id, *final(c))
                    && final(self).private_channels@ == old(self).private_channels@
                    && final(self).guild_channels@ == old(self).guild_channels@
                    && final(self).party_channels@ == old(self).party_channels@,
                ChannelSlot::Private => r matches Some(c) && *c == old(self).private_channels@[id].base
                    && final(self).private_channels@ == old(self).private_channels@.insert(id,
                        PrivateChatChannel { base: *final(c), ..old(self).private_channels@[id] })
                    && final(self).normal_channels@ == old(self).normal_channels@
                    && final(self).guild_channels@ == old(self).guild_channels@
                    && final(self).party_channels@ == old(self).party_channels@,
                ChannelSlot::Guild => r matches Some(c)
                    && *c == old(self).guild_channels@[old(self).guild_key()]
                    && final(self).guild_channels@ == old(self).guild_channels@.insert(old(self).guild_key(), *final(c))
                    && final(self).normal_channels@ == old(self).normal_channels@
                    && final(self).private_channels@ == old(self).private_channels@
                    && final(self).party_channels@ == old(self).party_channels@,
                ChannelSlot::Party => r matches Some(c)
                    && *c == old(self).party_channels@[old(self).party_key()]
                    && final(self).party_channels@ == old(self).party_channels@.insert(old(self).party_key(), *final(c))
                    && final(self).normal_channels@ == old(self).normal_channels@
                    && final(self).private_channels@ == old(self).private_channels@
                    && final(self).guild_channels@ == old(self).guild_channels@,
                ChannelSlot::Missing => r is None
                    && final(self).normal_channels@ == old(self).normal_channels@
                    && final(self).private_channels@ == old(self).private_channels@
                    && final(self).guild_channels@ == old(self).guild_channels@
                    && final(self).party_channels@ == old(self).party_channels@,
            },
    {
        if self.normal_channels.contains_key(&id) {
            return hash_map_get_mut(&mut self.normal_channels, &id);
        }
        if self.private_channels.contains_key(&id) {
            return match hash_map_get_mut(&mut self.private_channels, &id) {
                Some(p) => Some(&mut p.base),
                None => None,
            };
        }
        if id == CHANNEL_GUILD {
            match least_key_u32(&self.guild_channels) {
                Some(g) => hash_map_get_mut(&mut self.guild_channels, &g),
                None => None,
            }
        } else if id == CHANNEL_PARTY {
            match least_key_u64(&self.party_channels) {
                Some(l) => hash_map_get_mut(&mut self.party_channels, &l),
                None => None,
            }
        } else {
            None
        }
    }

    /// Where a lookup of `id` lands, with the key of the guild / party channel it picks.
    fn find_channel(&self, id: u16) -> (k: ChannelKey)
        ensures
            match k {
                ChannelKey::Normal => self.slot_of(id) is Normal,
                ChannelKey::Private => self.slot_of(id) is Private,
                ChannelKey::Guild(g) => self.slot_of(id) is Guild && self.guild_channels@.contains_key(g)
                    && g == self.guild_key(),
                ChannelKey::Party(l) => self.slot_of(id) is Party && self.party_channels@.contains_key(l)
                    && l == self.party_key(),
                ChannelKey::Missing => self.slot_of(id) is Missing,
            },
    {
        if self.normal_channels.contains_key(&id) {
            ChannelKey::Normal
        } else if self.private_channels.contains_key(&id) {
            ChannelKey::Private
        } else if id == CHANNEL_GUILD {
            match least_key_u32(&self.guild_channels) {
                Some(g) => ChannelKey::Guild(g),
                None => ChannelKey::Missing,
            }
        } else if id == CHANNEL_PARTY {
            match least_key_u64(&self.party_channels) {
                Some(l) => ChannelKey::Party(l),
                None => ChannelKey::Missing,
            }
        } else {
            ChannelKey::Missing
        }
    }

    /// Adds (`add`) or removes `user_id` in the channel that a lookup of `channel_id` finds.
    fn change_users(&mut self, channel_id: u16, user_id: CreatureId, add: bool) -> (r: bool)
        ensures
            if add {
                old(self).users_updated(*final(self), channel_id, with_user(user_id), any_users(), r)
            } else {
                old(self).users_updated(*final(self), channel_id, without_user(user_id), has_user(user_id), r)
            },
    {
        match self.find_channel(channel_id) {
            ChannelKey::Normal => change_users_in(&mut self.normal_channels, channel_id, user_id, add),
            ChannelKey::Private => change_private_users(&mut self.private_channels, channel_id, user_id, add),
            ChannelKey::Guild(g) => change_users_in(&mut self.guild_channels, g, user_id, add),
            ChannelKey::Party(l) => change_users_in(&mut self.party_channels, l, user_id, add),
            ChannelKey::Missing => false,
        }
    }

    /// Joins `user_id` to the channel that `get_channel(channel_id)` finds; false when
    /// there is none.
    pub fn add_user_to_channel(&mut self, channel_id: u16, user_id: CreatureId) -> (r: bool)
        ensures
            old(self).users_updated(*final(self), channel_id, with_user(user_id), any_users(), r),
    {
        self.change_users(channel_id, user_id, true)
    }

    /// Leaves `user_id` out of the channel that `get_channel(channel_id)` finds; true
    /// when the user was in it.
    pub fn remove_user_from_channel(&mut self, channel_id: u16, user_id: CreatureId) -> (r: bool)
        ensures
            old(self).users_updated(*final(self), channel_id, without_user(user_id), has_user(user_id), r),
    {
        self.change_users(channel_id, user_id, false)
    }

    /// Takes `user_id` out of every channel (on logout).
    pub fn remove_user_from_all_channels(&mut self, user_id: CreatureId)
        ensures
            channels_updated(old(self).normal_channels@, final(self).normal_channels@, |k: u16| true, without_user(user_id)),
            private_updated(old(self).private_channels@, final(self).private_channels@, |k: u16| true, without_user(user_id)),
            channels_updated(old(self).guild_channels@, final(self).guild_channels@, |k: u32| true, without_user(user_id)),
            channels_updated(old(self).party_channels@, final(self).party_channels@, |k: CreatureId| true, without_user(user_id)),
            final(self).next_private_channel_id == old(self).next_private_channel_id,
    {
        remove_user_everywhere(&mut self.normal_channels, user_id);
        remove_private_user_everywhere(&mut self.private_channels, user_id);
        remove_user_everywhere(&mut self.guild_channels, user_id);
        remove_user_everywhere(&mut self.party_channels, user_id);
    }

    /// Whether `user_id` is in the channel that `get_channel(channel_id)` finds.
    pub fn is_user_in_channel(&self, channel_id: u16, user_id: CreatureId) -> (r: bool)
        ensures
            r == self.users_of(channel_id).contains(user_id),
    {
        match self.get_channel(channel_id) {
            Some(channel) => channel.users.contains(&user_id),
            None => false,
        }
    }

    pub fn get_private_channel(&self, id: u16) -> (r: Option<&PrivateChatChannel>)
        ensures
            match r {
                Some(c) => self.private_channels@.contains_key(id) && *c == self.private_channels@[id],
                None => !self.private_channels@.contains_key(id),
            },
    {
        self.private_channels.get(&id)
    }

    pub fn get_private_channel_mut(&mut self, id: u16) -> (r: Option<&mut PrivateChatChannel>)
        ensures
            final(self).normal_channels@ == old(self).normal_channels@,
            final(self).guild_channels@ == old(self).guild_channels@,
            final(self).party_channels@ == old(self).party_channels@,
            final(self).next_private_channel_id == old(self).next_private_channel_id,
            match r {
                Some(c) => old(self).private_channels@.contains_key(id) && *c == old(self).private_channels@[id]
                    && final(self).private_channels@ == old(self).private_channels@.insert(id, *final(c)),
                None => !old(self).private_channels@.contains_key(id)
                    && final(self).private_channels@ == old(self).private_channels@,
            },
    {
        hash_map_get_mut(&mut self.private_channels, &id)
    }

    /// `new` is `self` with private channel `id`, made with `name` and `owner`, added
    /// under the next private id, which moves on by one.
    pub open spec fn private_added(self, new: ChatRegistry, id: u16, name: Seq<char>, owner: CreatureId) -> bool {
        &&& id == self.next_private_channel_id
        &&& new.next_private_channel_id == self.next_private_channel_id + 1
        &&& new.private_channels@.dom() == self.private_channels@.dom().insert(id)
        &&& fresh_private_channel(new.private_channels@[id], id, name, owner)
        &&& forall|k: u16| #[trigger] self.private_channels@.contains_key(k) && k != id
            ==> new.private_channels@[k] == self.private_channels@[k]
        &&& new.normal_channels@ == self.normal_channels@
        &&& new.guild_channels@ == self.guild_channels@
        &&& new.party_channels@ == self.party_channels@
    }

    /// Makes a private channel named `name` owned by `owner` under the next private id,
    /// and returns that id.
    pub fn create_private_channel(&mut self, name: String, owner: CreatureId) -> (r: u16)
        requires
            old(self).next_private_channel_id < u16::MAX,
        ensures
            old(self).private_added(*final(self), r, name@, owner),
    {
        let id = self.next_private_channel_id;
        self.next_private_channel_id = id + 1;
        let channel = PrivateChatChannel::new(id, name, owner);
        self.private_channels.insert(id, channel);
        id
    }

    /// Makes the channel that a player asks for: the guild channel of `guild_id`, the
    /// party channel of `party_leader` (each only when missing), or a new private channel
    /// of `player_id`. Returns the channel id, or `None` when the player has no guild /
    /// party or the id is none of these.
    pub fn create_channel(
        &mut self,
        channel_id: u16,
        player_id: CreatureId,
        guild_id: Option<u32>,
        party_leader: Option<CreatureId>,
    ) -> (r: Option<u16>)
        requires
            channel_id == CHANNEL_PRIVATE ==> old(self).next_private_channel_id < u16::MAX,
        ensures
            channel_id == CHANNEL_GUILD ==> match guild_id {
                Some(g) => r == Some(CHANNEL_GUILD)
                    && final(self).guild_channels@.dom() == old(self).guild_channels@.dom().insert(g)
                    && (old(self).guild_channels@.contains_key(g) ==> final(self).guild_channels@ == old(self).guild_channels@)
                    && (!old(self).guild_channels@.contains_key(g) ==>
                        fresh_channel(final(self).guild_channels@[g], CHANNEL_GUILD, "Guild Channel"@)
                        && forall|k: u32| #[trigger] old(self).guild_channels@.contains_key(k)
                            ==> final(self).guild_channels@[k] == old(self).guild_channels@[k]),
                None => r is None && final(self).guild_channels@ == old(self).guild_channels@,
            },
            channel_id == CHANNEL_PARTY ==> match party_leader {
                Some(l) => r == Some(CHANNEL_PARTY)
                    && final(self).party_channels@.dom() == old(self).party_channels@.dom().insert(l)
                    && (old(self).party_channels@.contains_key(l) ==> final(self).party_channels@ == old(self).party_channels@)
                    && (!old(self).party_channels@.contains_key(l) ==>
                        fresh_channel(final(self).party_channels@[l], CHANNEL_PARTY, "Party"@)
                        && forall|k: CreatureId| #[trigger] old(self).party_channels@.contains_key(k)
                            ==> final(self).party_channels@[k] == old(self).party_channels@[k]),
                None => r is None && final(self).party_channels@ == old(self).party_channels@,
            },
            channel_id == CHANNEL_PRIVATE ==> r == Some(old(self).next_private_channel_id)
                && old(self).private_added(*final(self), old(self).next_private_channel_id,
                    private_channel_name(old(self).next_private_channel_id), player_id),
            channel_id != CHANNEL_PRIVATE ==> final(self).private_channels@ == old(self).private_channels@
                && final(self).next_private_channel_id == old(self).next_private_channel_id,
            channel_id != CHANNEL_GUILD ==> final(self).guild_channels@ == old(self).guild_channels@,
            channel_id != CHANNEL_PARTY ==> final(self).party_channels@ == old(self).party_channels@,
            final(self).normal_channels@ == old(self).normal_channels@,
            channel_id != CHANNEL_GUILD && channel_id != CHANNEL_PARTY && channel_id != CHANNEL_PRIVATE ==> r is None,
    {
        if channel_id == CHANNEL_GUILD {
            match guild_id {
                Some(g) => {
                    if !self.guild_channels.contains_key(&g) {
                        let name = String::from_str("Guild Channel");
                        self.guild_channels.insert(g, ChatChannel::new(CHANNEL_GUILD, name));
                    }
                    Some(CHANNEL_GUILD)
                },
                None => None,
            }
        } else if channel_id == CHANNEL_PARTY {
            match party_leader {
                Some(l) => {
                    if !self.party_channels.contains_key(&l) {
                        let name = String::from_str("Party");
                        self.party_channels.insert(l, ChatChannel::new(CHANNEL_PARTY, name));
                    }
                    Some(CHANNEL_PARTY)
                },
                None => None,
            }
        } else if channel_id == CHANNEL_PRIVATE {
            let id = self.next_private_channel_id;
            self.next_private_channel_id = id + 1;
            let mut name = String::from_str("Private Channel ");
            let digits = u64_to_decimal(id as u64);
            name.append(digits.as_str());
            let channel = PrivateChatChannel::new(id, name, player_id);
            self.private_channels.insert(id, channel);
            Some(id)
        } else {
            None
        }
    }

    /// Whether the player `player_id` with guid `guid` owns private channel `k` or is
    /// invited to it.
    pub open spec fn sees_private(self, k: u16, player_id: CreatureId, guid: u32) -> bool {
        self.private_channels@[k].owner == player_id || self.private_channels@[k].invited@.contains(guid)
    }

    /// The entries with id `x` of the channel list that the player sees, in the order in
    /// which they are gathered: the normal channel `x` when public, the guild channel at
    /// the guild id, the party channel at the party id, then the private channel `x` when
    /// the player (having a guid) owns it or is invited.
    pub open spec fn list_entries_at(
        self,
        x: u16,
        player_id: CreatureId,
        player_guid: Option<u32>,
        guild_id: Option<u32>,
        party_leader: Option<CreatureId>,
    ) -> Seq<(u16, Seq<char>)> {
        (if self.normal_channels@.contains_key(x) && self.normal_channels@[x].public_channel {
            seq![(x, self.normal_channels@[x].name@)]
        } else {
            Seq::empty()
        }) + (if x == CHANNEL_GUILD && guild_id is Some {
            seq![(x, self.guild_channels@[guild_id->0].name@)]
        } else {
            Seq::empty()
        }) + (if x == CHANNEL_PARTY && party_leader is Some {
            seq![(x, self.party_channels@[party_leader->0].name@)]
        } else {
            Seq::empty()
        }) + (if player_guid is Some && self.private_channels@.contains_key(x)
            && self.sees_private(x, player_id, player_guid->0) {
            seq![(x, self.private_channels@[x].base.name@)]
        } else {
            Seq::empty()
        })
    }

    /// The channel list entries with ids below `x`, by id.
    pub open spec fn list_below(
        self,
        x: nat,
        player_id: CreatureId,
        player_guid: Option<u32>,
        guild_id: Option<u32>,
        party_leader: Option<CreatureId>,
    ) -> Seq<(u16, Seq<char>)>
        decreases x,
    {
        if x == 0 {
            Seq::empty()
        } else {
            self.list_below((x - 1) as nat, player_id, player_guid, guild_id, party_leader)
                + self.list_entries_at((x - 1) as u16, player_id, player_guid, guild_id, party_leader)
        }
    }

    /// Ids where nothing is listed leave the list as it was.
    proof fn lemma_list_below_skip(
        self,
        a: nat,
        b: nat,
        player_id: CreatureId,
        player_guid: Option<u32>,
        guild_id: Option<u32>,
        party_leader: Option<CreatureId>,
    )
        requires
            a <= b <= 0x10000,
            forall|y: u16| a <= y < b ==> #[trigger] self.list_entries_at(y, player_id, player_guid, guild_id, party_leader).len() == 0,
        ensures
            self.list_below(b, player_id, player_guid, guild_id, party_leader)
                == self.list_below(a, player_id, player_guid, guild_id, party_leader),
        decreases b - a,
    {
        if a < b {
            self.lemma_list_below_skip(a, (b - 1) as nat, player_id, player_guid, guild_id, party_leader);
            let e = self.list_entries_at((b - 1) as u16, player_id, player_guid, guild_id, party_leader);
            assert(e.len() == 0);
            assert(self.list_below((b - 1) as nat, player_id, player_guid, guild_id, party_leader) + e
                =~= self.list_below((b - 1) as nat, player_id, player_guid, guild_id, party_leader));
        }
    }

    /// Pushes the entries with id `x` onto `out`.
    fn push_entries_at(
        &self,
        out: &mut Vec<(u16, String)>,
        x: u16,
        player_id: CreatureId,
        player_guid: Option<u32>,
        guild_id: Option<u32>,
        party_leader: Option<CreatureId>,
    )
        requires
            guild_id matches Some(g) ==> self.guild_channels@.contains_key(g),
            party_leader matches Some(l) ==> self.party_channels@.contains_key(l),
        ensures
            list_view(final(out)@) == list_view(old(out)@)
                + self.list_entries_at(x, player_id, player_guid, guild_id, party_leader),
    {
        let ghost o0 = out@;
        let ghost e = self.list_entries_at(x, player_id, player_guid, guild_id, party_leader);
        let ghost mut want: Seq<(u16, Seq<char>)> = list_view(o0);
        if let Some(c) = self.normal_channels.get(&x) {
            if c.public_channel {
                out.push((x, c.name.clone()));
                proof { want = want.push((x, c.name@)); }
            }
        }
        assert(list_view(out@) =~= want);
        if x == CHANNEL_GUILD {
            if let Some(g) = guild_id {
                if let Some(c) = self.guild_channels.get(&g) {
                    out.push((x, c.name.clone()));
                    proof { want = want.push((x, c.name@)); }
                }
            }
        }
        assert(list_view(out@) =~= want);
        if x == CHANNEL_PARTY {
            if let Some(l) = party_leader {
                if let Some(c) = self.party_channels.get(&l) {
                    out.push((x, c.name.clone()));
                    proof { want = want.push((x, c.name@)); }
                }
            }
        }
        assert(list_view(out@) =~= want);
        if let Some(guid) = player_guid {
            if let Some(c) = self.private_channels.get(&x) {
                if c.owner == player_id || c.invited.contains(&guid) {
                    out.push((x, c.base.name.clone()));
                    proof { want = want.push((x, c.base.name@)); }
                }
            }
        }
        assert(list_view(out@) =~= want);
        assert(want =~= list_view(o0) + e);
    }

    /// The channels that a player sees, by id: public normal channels, its guild and
    /// party channels (made first when missing), and the private channels it owns or is
    /// invited to (only for a player with a guid). Channels of one id come in that order.
    pub fn get_channel_list(
        &mut self,
        player_id: CreatureId,
        player_guid: Option<u32>,
        guild_id: Option<u32>,
        party_leader: Option<CreatureId>,
    ) -> (r: Vec<(u16, String)>)
        ensures
            match guild_id {
                Some(g) => final(self).guild_channels@.dom() == old(self).guild_channels@.dom().insert(g)
                    && (old(self).guild_channels@.contains_key(g) ==> final(self).guild_channels@ == old(self).guild_channels@)
                    && (!old(self).guild_channels@.contains_key(g) ==>
                        fresh_channel(final(self).guild_channels@[g], CHANNEL_GUILD, "Guild Channel"@)
                        && forall|k: u32| #[trigger] old(self).guild_channels@.contains_key(k)
                            ==> final(self).guild_channels@[k] == old(self).guild_channels@[k]),
                None => final(self).guild_channels@ == old(self).guild_channels@,
            },
            match party_leader {
                Some(l) => final(self).party_channels@.dom() == old(self).party_channels@.dom().insert(l)
                    && (old(self).party_channels@.contains_key(l) ==> final(self).party_channels@ == old(self).party_channels@)
                    && (!old(self).party_channels@.contains_key(l) ==>
                        fresh_channel(final(self).party_channels@[l], CHANNEL_PARTY, "Party"@)
                        && forall|k: CreatureId| #[trigger] old(self).party_channels@.contains_key(k)
                            ==> final(self).party_channels@[k] == old(self).party_channels@[k]),
                None => final(self).party_channels@ == old(self).party_channels@,
            },
            final(self).normal_channels@ == old(self).normal_channels@,
            final(self).private_channels@ == old(self).private_channels@,
            final(self).next_private_channel_id == old(self).next_private_channel_id,
            list_view(r@) == final(self).list_below(0x10000, player_id, player_guid, guild_id, party_leader),
    {
        if let Some(g) = guild_id {
            if !self.guild_channels.contains_key(&g) {
                let name = String::from_str("Guild Channel");
                self.guild_channels.insert(g, ChatChannel::new(CHANNEL_GUILD, name));
            }
        }
        if let Some(l) = party_leader {
            if !self.party_channels.contains_key(&l) {
                let name = String::from_str("Party");
                self.party_channels.insert(l, ChatChannel::new(CHANNEL_PARTY, name));
            }
        }
        let ids = self.listed_ids(player_id, player_guid, guild_id, party_leader);
        let mut out: Vec<(u16, String)> = Vec::new();
        let mut i: usize = 0;
        let ghost mut lo: nat = 0;
        while i < ids.len()
            invariant
                i <= ids@.len(),
                lo <= 0x10000,
                i == 0 ==> lo == 0,
                i > 0 ==> lo == ids@[i - 1] + 1,
                forall|a: int, b: int| 0 <= a < b < ids@.len() ==> ids@[a] < ids@[b],
                forall|y: u16| #[trigger] self.list_entries_at(y, player_id, player_guid, guild_id, party_leader).len() > 0
                    ==> ids@.contains(y),
                guild_id matches Some(g) ==> self.guild_channels@.contains_key(g),
                party_leader matches Some(l) ==> self.party_channels@.contains_key(l),
                list_view(out@) == self.list_below(lo, player_id, player_guid, guild_id, party_leader),
            decreases ids@.len() - i,
        {
            let x = ids[i];
            proof {
                if i > 0 {
                    assert(ids@[i - 1] < ids@[i as int]);
                }
                assert forall|y: u16| lo <= y < x implies
                    #[trigger] self.list_entries_at(y, player_id, player_guid, guild_id, party_leader).len() == 0 by {
                    if self.list_entries_at(y, player_id, player_guid, guild_id, party_leader).len() > 0 {
                        let t = choose|t: int| 0 <= t < ids@.len() && ids@[t] == y;
                        if t < i {
                            if t < i - 1 {
                                assert(ids@[t] < ids@[i - 1]);
                            }
                        } else if t > i {
                            assert(ids@[i as int] < ids@[t]);
                        }
                    }
                }
                self.lemma_list_below_skip(lo, x as nat, player_id, player_guid, guild_id, party_leader);
            }
            self.push_entries_at(&mut out, x, player_id, player_guid, guild_id, party_leader);
            proof {
                lo = (x + 1) as nat;
            }
            i = i + 1;
        }
        proof {
            assert forall|y: u16| lo <= y < 0x10000 implies
                #[trigger] self.list_entries_at(y, player_id, player_guid, guild_id, party_leader).len() == 0 by {
                if self.list_entries_at(y, player_id, player_guid, guild_id, party_leader).len() > 0 {
                    let t = choose|t: int| 0 <= t < ids@.len() && ids@[t] == y;
                    if t < i - 1 {
                        assert(ids@[t] < ids@[i - 1]);
                    }
                }
            }
            self.lemma_list_below_skip(lo, 0x10000, player_id, player_guid, guild_id, party_leader);
        }
        out
    }

    /// The ids at which the player's channel list has entries, strictly ascending (and
    /// maybe some more).
    fn listed_ids(
        &self,
        player_id: CreatureId,
        player_guid: Option<u32>,
        guild_id: Option<u32>,
        party_leader: Option<CreatureId>,
    ) -> (ids: Vec<u16>)
        ensures
            forall|a: int, b: int| 0 <= a < b < ids@.len() ==> ids@[a] < ids@[b],
            forall|y: u16| #[trigger] self.list_entries_at(y, player_id, player_guid, guild_id, party_leader).len() > 0
                ==> ids@.contains(y),
    {
        let mut ids: Vec<u16> = Vec::new();
        let nk = map_keys(&self.normal_channels);
        let mut i: usize = 0;
        while i < nk.len()
            invariant
                i <= nk@.len(),
                nk@.to_set() == self.normal_channels@.dom(),
                forall|a: int, b: int| 0 <= a < b < ids@.len() ==> ids@[a] < ids@[b],
                forall|t: int| 0 <= t < i && #[trigger] self.normal_channels@[nk@[t]].public_channel
                    ==> ids@.contains(nk@[t]),
            decreases nk@.len() - i,
        {
            let k = nk[i];
            proof {
                assert(nk@.to_set().contains(k));
            }
            let public = match self.normal_channels.get(&k) {
                Some(c) => c.public_channel,
                None => false,
            };
            if public {
                let ghost before = ids@;
                insert_sorted(&mut ids, k);
                proof {
                    assert forall|t: int| 0 <= t <= i && #[trigger] self.normal_channels@[nk@[t]].public_channel
                        implies ids@.contains(nk@[t]) by {
                        if t < i {
                            assert(before.to_set().contains(nk@[t]));
                        }
                        assert(ids@.to_set().contains(nk@[t]));
                    }
                }
            }
            i = i + 1;
        }
        if guild_id.is_some() {
            let ghost before = ids@;
            insert_sorted(&mut ids, CHANNEL_GUILD);
            proof {
                assert forall|t: int| 0 <= t < nk@.len() && #[trigger] self.normal_channels@[nk@[t]].public_channel
                    implies ids@.contains(nk@[t]) by {
                    assert(before.to_set().contains(nk@[t]));
                    assert(ids@.to_set().contains(nk@[t]));
                }
                assert(ids@.to_set().contains(CHANNEL_GUILD));
            }
        }
        if party_leader.is_some() {
            let ghost before = ids@;
            insert_sorted(&mut ids, CHANNEL_PARTY);
            proof {
                assert forall|t: int| 0 <= t < nk@.len() && #[trigger] self.normal_channels@[nk@[t]].public_channel
                    implies ids@.contains(nk@[t]) by {
                    assert(before.to_set().contains(nk@[t]));
                    assert(ids@.to_set().contains(nk@[t]));
                }
                if guild_id.is_some() {
                    assert(before.to_set().contains(CHANNEL_GUILD));
                    assert(ids@.to_set().contains(CHANNEL_GUILD));
                }
                assert(ids@.to_set().contains(CHANNEL_PARTY));
            }
        }
        let ghost base = ids@;
        if let Some(guid) = player_guid {
            let pk = map_keys(&self.private_channels);
            let mut j: usize = 0;
            while j < pk.len()
                invariant
                    j <= pk@.len(),
                    pk@.to_set() == self.private_channels@.dom(),
                    forall|a: int, b: int| 0 <= a < b < ids@.len() ==> ids@[a] < ids@[b],
                    base.to_set().subset_of(ids@.to_set()),
                    forall|t: int| 0 <= t < j && #[trigger] self.sees_private(pk@[t], player_id, guid)
                        ==> ids@.contains(pk@[t]),
                decreases pk@.len() - j,
            {
                let k = pk[j];
                proof {
                    assert(pk@.to_set().contains(k));
                }
                let visible = match self.private_channels.get(&k) {
                    Some(c) => c.owner == player_id || c.invited.contains(&guid),
                    None => false,
                };
                if visible {
                    let ghost before = ids@;
                    insert_sorted(&mut ids, k);
                    proof {
                        assert forall|t: int| 0 <= t <= j && #[trigger] self.sees_private(pk@[t], player_id, guid)
                            implies ids@.contains(pk@[t]) by {
                            if t < j {
                                assert(before.to_set().contains(pk@[t]));
                            }
                            assert(ids@.to_set().contains(pk@[t]));
                        }
                    }
                }
                j = j + 1;
            }
            proof {
                assert forall|y: u16| self.private_channels@.contains_key(y) && #[trigger] self.sees_private(y, player_id, guid)
                    implies ids@.contains(y) by {
                    assert(pk@.to_set().contains(y));
                    let t = choose|t: int| 0 <= t < pk@.len() && pk@[t] == y;
                    assert(self.sees_private(pk@[t], player_id, guid));
                }
            }
        }
        proof {
            assert forall|y: u16| #[trigger] self.list_entries_at(y, player_id, player_guid, guild_id, party_leader).len() > 0
                implies ids@.contains(y) by {
                if self.normal_channels@.contains_key(y) && self.normal_channels@[y].public_channel {
                    assert(nk@.to_set().contains(y));
                    let t = choose|t: int| 0 <= t < nk@.len() && nk@[t] == y;
                    assert(self.normal_channels@[nk@[t]].public_channel);
                    assert(base.contains(y));
                    assert(base.to_set().contains(y));
                    assert(ids@.to_set().contains(y));
                } else if y == CHANNEL_GUILD && guild_id is Some {
                    assert(base.to_set().contains(y));
                    assert(ids@.to_set().contains(y));
                } else if y == CHANNEL_PARTY && party_leader is Some {
                    assert(base.to_set().contains(y));
                    assert(ids@.to_set().contains(y));
                }
            }
        }
        ids
    }

    /// Invites a player guid to a private channel; false when there is no such channel.
    pub fn invite_to_private_channel(&mut self, channel_id: u16, player_guid: u32) -> (r: bool)
        ensures
            r == old(self).private_channels@.contains_key(channel_id),
            final(self).normal_channels@ == old(self).normal_channels@,
            final(self).guild_channels@ == old(self).guild_channels@,
            final(self).party_channels@ == old(self).party_channels@,
            final(self).next_private_channel_id == old(self).next_private_channel_id,
            final(self).private_channels@.dom() == old(self).private_channels@.dom(),
            forall|k: u16| #[trigger] old(self).private_channels@.contains_key(k) && k != channel_id
                ==> final(self).private_channels@[k] == old(self).private_channels@[k],
            r ==> final(self).private_channels@[channel_id].base == old(self).private_channels@[channel_id].base
                && final(self).private_channels@[channel_id].owner == old(self).private_channels@[channel_id].owner
                && final(self).private_channels@[channel_id].invited@ == old(self).private_channels@[channel_id].invited@.insert(player_guid),
    {
        let ghost old_m = self.private_channels@;
        match hash_map_get_mut(&mut self.private_channels, &channel_id) {
            Some(ch) => {
                ch.invited.insert(player_guid);
                assert(self.private_channels@.dom() =~= old_m.dom());
                true
            },
            None => false,
        }
    }

    /// Removes a player guid from a private channel's invitations; true when it was invited.
    pub fn exclude_from_private_channel(&mut self, channel_id: u16, player_guid: u32) -> (r: bool)
        ensures
            r == (old(self).private_channels@.contains_key(channel_id)
                && old(self).private_channels@[channel_id].invited@.contains(player_guid)),
            final(self).normal_channels@ == old(self).normal_channels@,
            final(self).guild_channels@ == old(self).guild_channels@,
            final(self).party_channels@ == old(self).party_channels@,
            final(self).next_private_channel_id == old(self).next_private_channel_id,
            final(self).private_channels@.dom() == old(self).private_channels@.dom(),
            forall|k: u16| #[trigger] old(self).private_channels@.contains_key(k) && k != channel_id
                ==> final(self).private_channels@[k] == old(self).private_channels@[k],
            old(self).private_channels@.contains_key(channel_id) ==>
                final(self).private_channels@[channel_id].base == old(self).private_channels@[channel_id].base
                && final(self).private_channels@[channel_id].owner == old(self).private_channels@[channel_id].owner
                && final(self).private_channels@[channel_id].invited@ == old(self).private_channels@[channel_id].invited@.remove(player_guid),
    {
        let ghost old_m = self.private_channels@;
        match hash_map_get_mut(&mut self.private_channels, &channel_id) {
            Some(ch) => {
                let r = ch.invited.remove(&player_guid);
                assert(self.private_channels@.dom() =~= old_m.dom());
                r
            },
            None => false,
        }
    }

    pub fn is_invited_to_private_channel(&self, channel_id: u16, player_guid: u32) -> (r: bool)
        ensures
            r == (self.private_channels@.contains_key(channel_id)
                && self.private_channels@[channel_id].invited@.contains(player_guid)),
    {
        match self.private_channels.get(&channel_id) {
            Some(ch) => ch.invited.contains(&player_guid),
            None => false,
        }
    }
}

/// Joining or leaving a channel keeps every lookup where it was: the same id finds the
/// same kind of channel afterwards (`add_user_to_channel`, `remove_user_from_channel`).
pub proof fn lemma_user_change_keeps_lookup(
    reg: ChatRegistry,
    new: ChatRegistry,
    id: u16,
    other: u16,
    users_after: spec_fn(Set<CreatureId>) -> Set<CreatureId>,
    hit: spec_fn(Set<CreatureId>) -> bool,
    r: bool,
)
    requires
        reg.users_updated(new, id, users_after, hit, r),
    ensures
        new.slot_of(other) == reg.slot_of(other),
{
    assert(new.normal_channels@.dom() =~= reg.normal_channels@.dom());
    assert(new.private_channels@.dom() =~= reg.private_channels@.dom());
    assert(new.guild_channels@.dom() =~= reg.guild_channels@.dom());
    assert(new.party_channels@.dom() =~= reg.party_channels@.dom());
    if reg.guild_channels@.is_empty() != new.guild_channels@.is_empty() {
        if reg.guild_channels@.is_empty() {
            assert(new.guild_channels@.dom() =~= Set::empty());
        } else {
            assert(reg.guild_channels@.dom() =~= Set::empty());
        }
    }
    if reg.party_channels@.is_empty() != new.party_channels@.is_empty() {
        if reg.party_channels@.is_empty() {
            assert(new.party_channels@.dom() =~= Set::empty());
        } else {
            assert(reg.party_channels@.dom() =~= Set::empty());
        }
    }
}

/// A change of users (as `add_user_to_channel` and `remove_user_from_channel` make)
/// touches only the channel that a lookup of `id` finds: its users become `users_after`
/// of the old ones and the answer is `hit` of them (false, with nothing changed, when
/// the lookup finds nothing); every other id finds the same users as before.
pub proof fn lemma_user_change_frame(
    reg: ChatRegistry,
    new: ChatRegistry,
    id: u16,
    users_after: spec_fn(Set<CreatureId>) -> Set<CreatureId>,
    hit: spec_fn(Set<CreatureId>) -> bool,
    r: bool,
)
    requires
        reg.users_updated(new, id, users_after, hit, r),
    ensures
        forall|other: u16| #[trigger] new.slot_of(other) == reg.slot_of(other),
        reg.slot_of(id) is Missing ==> !r && new.users_of(id) == reg.users_of(id),
        !(reg.slot_of(id) is Missing) ==> new.users_of(id) == users_after(reg.users_of(id))
            && r == hit(reg.users_of(id)),
        forall|other: u16| other != id ==> #[trigger] new.users_of(other) == reg.users_of(other),
{
    assert forall|other: u16| #[trigger] new.slot_of(other) == reg.slot_of(other) by {
        lemma_user_change_keeps_lookup(reg, new, id, other, users_after, hit, r);
    }
    assert(new.guild_channels@.dom() =~= reg.guild_channels@.dom());
    assert(new.party_channels@.dom() =~= reg.party_channels@.dom());
    assert(new.guild_key() == reg.guild_key());
    assert(new.party_key() == reg.party_key());
    if reg.slot_of(id) is Guild {
        vstd::std_specs::hash::axiom_hashmap_view_finite_dom(reg.guild_channels);
        crate::maps::lemma_least_u32(reg.guild_channels@.dom());
        assert(reg.guild_channels@.contains_key(reg.guild_key()));
    }
    if reg.slot_of(id) is Party {
        vstd::std_specs::hash::axiom_hashmap_view_finite_dom(reg.party_channels);
        crate::maps::lemma_least_u64(reg.party_channels@.dom());
        assert(reg.party_channels@.contains_key(reg.party_key()));
    }
    if reg.slot_of(id) is Normal {
        assert(reg.normal_channels@.contains_key(id));
    }
    if reg.slot_of(id) is Private {
        assert(reg.private_channels@.contains_key(id));
    }
    assert forall|other: u16| other != id implies #[trigger] new.users_of(other) == reg.users_of(other) by {
        assert(new.slot_of(other) == reg.slot_of(other));
        if reg.slot_of(other) is Normal {
            assert(reg.normal_channels@.contains_key(other));
        }
        if reg.slot_of(other) is Private {
            assert(reg.private_channels@.contains_key(other));
        }
    }
}

/// A user that `add_user_to_channel` joins is then in the channel that the same id finds
/// (so `is_user_in_channel` reports it); the join succeeds exactly when `get_channel`
/// finds a channel, and no other id's users change.
pub proof fn lemma_join_then_member(reg: ChatRegistry, joined: ChatRegistry, id: u16, u: CreatureId, r: bool)
    requires
        reg.users_updated(joined, id, with_user(u), any_users(), r),
    ensures
        r == !(reg.slot_of(id) is Missing),
        r ==> joined.users_of(id) == reg.users_of(id).insert(u) && joined.users_of(id).contains(u),
        !r ==> joined.users_of(id) == reg.users_of(id),
        forall|other: u16| other != id ==> #[trigger] joined.users_of(other) == reg.users_of(other),
{
    lemma_user_change_frame(reg, joined, id, with_user(u), any_users(), r);
}

/// `remove_user_from_channel` answers whether the user was in the channel that the id
/// finds; afterwards the user is not in it, and no other id's users change.
pub proof fn lemma_leave_then_not_member(reg: ChatRegistry, left: ChatRegistry, id: u16, u: CreatureId, r: bool)
    requires
        reg.users_updated(left, id, without_user(u), has_user(u), r),
    ensures
        r == reg.users_of(id).contains(u),
        left.users_of(id) == reg.users_of(id).remove(u),
        !left.users_of(id).contains(u),
        forall|other: u16| other != id ==> #[trigger] left.users_of(other) == reg.users_of(other),
{
    lemma_user_change_frame(reg, left, id, without_user(u), has_user(u), r);
    if reg.slot_of(id) is Missing {
        assert(reg.users_of(id).remove(u) =~= reg.users_of(id));
    }
}

/// Joining and then leaving the same channel: the leave succeeds exactly when the join
/// did, the channel ends with its old users less `u` (its old users exactly, when `u`
/// was not among them), and every id finds the same kind of channel and, for the other
/// ids, the same users as before.
pub proof fn lemma_join_leave_round_trip(
    reg: ChatRegistry,
    joined: ChatRegistry,
    left: ChatRegistry,
    id: u16,
    u: CreatureId,
    r1: bool,
    r2: bool,
)
    requires
        reg.users_updated(joined, id, with_user(u), any_users(), r1),
        joined.users_updated(left, id, without_user(u), has_user(u), r2),
    ensures
        r2 == r1,
        left.users_of(id) == reg.users_of(id).remove(u),
        !reg.users_of(id).contains(u) ==> left.users_of(id) == reg.users_of(id),
        forall|other: u16| #[trigger] left.slot_of(other) == reg.slot_of(other),
        forall|other: u16| other != id ==> #[trigger] left.users_of(other) == reg.users_of(other),
{
    lemma_user_change_frame(reg, joined, id, with_user(u), any_users(), r1);
    lemma_user_change_frame(joined, left, id, without_user(u), has_user(u), r2);
    assert(joined.slot_of(id) == reg.slot_of(id));
    if r1 {
        assert(reg.users_of(id).insert(u).remove(u) =~= reg.users_of(id).remove(u));
    } else {
        assert(reg.users_of(id).remove(u) =~= reg.users_of(id));
    }
    if !reg.users_of(id).contains(u) {
        assert(reg.users_of(id).remove(u) =~= reg.users_of(id));
    }
    assert forall|other: u16| #[trigger] left.slot_of(other) == reg.slot_of(other) by {
        assert(left.slot_of(other) == joined.slot_of(other));
        assert(joined.slot_of(other) == reg.slot_of(other));
    }
    assert forall|other: u16| other != id implies #[trigger] left.users_of(other) == reg.users_of(other) by {
        assert(left.users_of(other) == joined.users_of(other));
        assert(joined.users_of(other) == reg.users_of(other));
    }
}

} // verus!
