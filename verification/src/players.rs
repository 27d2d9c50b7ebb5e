//! The registry of the players that are present on the bus.
//!
//! A player is known by its stable name. It is reached through one or more
//! channels: the connections that stand for it at the moment. The registry
//! holds, for each player, its channels, and for each channel its player.
//! Both are changed together, so that they never disagree.

use crate::constants::MPRIS_PREFIX;
use crate::names::{
    clone_names, lemma_push_holds, lemma_without_holds, name_of, names_of, remove_name,
};
use vstd::hash_map::StringHashMap;
use vstd::prelude::*;

verus! {

/// A bus name is that of a media player if it starts with the prefix that all
/// media players share.
pub open spec fn is_player_name(name: Seq<char>) -> bool {
    MPRIS_PREFIX@.is_prefix_of(name)
}

/// Tells whether `name` is the bus name of a media player.
pub fn is_player(name: &str) -> (player: bool)
    ensures
        player == is_player_name(name@),
{
    let prefix = MPRIS_PREFIX;
    let n = prefix.unicode_len();
    if name.unicode_len() < n {
        return false;
    }
    let mut i: usize = 0;
    while i < n
        invariant
            i <= n,
            prefix@ == MPRIS_PREFIX@,
            n == prefix@.len(),
            n <= name@.len(),
            forall|j: int| 0 <= j < i ==> name@[j] == prefix@[j],
        decreases n - i,
    {
        if name.get_char(i) != prefix.get_char(i) {
            assert(name@.subrange(0, n as int)[i as int] != prefix@[i as int]);
            return false;
        }
        i += 1;
    }
    assert(prefix@ =~= name@.subrange(0, n as int));
    true
}

/// What a registry holds, as contracts see it.
pub struct RegistryModel {
    /// The channels of each player that is present.
    pub channels: Map<Seq<char>, Set<Seq<char>>>,
    /// The player of each channel that is known.
    pub owner: Map<Seq<char>, Seq<char>>,
}

impl RegistryModel {
    /// The two maps agree, and no player is held without a channel: each
    /// known channel is among the channels of its player, each channel of a
    /// player is known as that player's, and each player has a channel.
    #[verifier::opaque]
    pub open spec fn wf(self) -> bool {
        &&& forall|c: Seq<char>| #[trigger]
            self.owner.contains_key(c) ==> self.channels.contains_key(self.owner[c])
                && self.channels[self.owner[c]].contains(c)
        &&& forall|p: Seq<char>, c: Seq<char>|
            self.channels.contains_key(p) && #[trigger] self.channels[p].contains(c)
                ==> self.owner.contains_key(c) && self.owner[c] == p
        &&& forall|p: Seq<char>| #[trigger]
            self.channels.contains_key(p) ==> !self.channels[p].is_empty()
    }

    /// The registry without any player.
    pub open spec fn empty() -> RegistryModel {
        RegistryModel { channels: Map::empty(), owner: Map::empty() }
    }

    /// The player that `channel` stands for, if the channel is known.
    pub open spec fn player_of(self, channel: Seq<char>) -> Option<Seq<char>> {
        if self.owner.contains_key(channel) {
            Some(self.owner[channel])
        } else {
            None
        }
    }

    /// The channels of `player`, if the player is present.
    pub open spec fn channels_of(self, player: Seq<char>) -> Option<Set<Seq<char>>> {
        if self.channels.contains_key(player) {
            Some(self.channels[player])
        } else {
            None
        }
    }

    /// The registry after `channel` has ceased to stand for `player`. A
    /// player that is left without a channel leaves the registry. A channel
    /// that does not stand for `player` changes nothing.
    pub open spec fn remove_channel(self, player: Seq<char>, channel: Seq<char>) -> RegistryModel {
        if self.owner.contains_key(channel) && self.owner[channel] == player {
            let left = self.channels[player].remove(channel);
            RegistryModel {
                channels: if left.is_empty() {
                    self.channels.remove(player)
                } else {
                    self.channels.insert(player, left)
                },
                owner: self.owner.remove(channel),
            }
        } else {
            self
        }
    }

    /// The registry after `channel` has begun to stand for `player`. A
    /// channel stands for one player at a time: it ceases to stand for the
    /// player that it stood for before.
    pub open spec fn add_channel(self, player: Seq<char>, channel: Seq<char>) -> RegistryModel {
        let freed = if self.owner.contains_key(channel) && self.owner[channel] != player {
            self.remove_channel(self.owner[channel], channel)
        } else {
            self
        };
        let held = if freed.channels.contains_key(player) {
            freed.channels[player]
        } else {
            Set::empty()
        };
        RegistryModel {
            channels: freed.channels.insert(player, held.insert(channel)),
            owner: freed.owner.insert(channel, player),
        }
    }

    /// The registry after each of `channels`, in turn, has begun to stand for
    /// `player`.
    pub open spec fn add(self, player: Seq<char>, channels: Seq<Seq<char>>) -> RegistryModel
        decreases channels.len(),
    {
        if channels.len() == 0 {
            self
        } else {
            self.add(player, channels.drop_last()).add_channel(player, channels.last())
        }
    }

    /// The registry after `player` has left it, with all its channels.
    pub open spec fn remove(self, player: Seq<char>) -> RegistryModel {
        if self.channels.contains_key(player) {
            RegistryModel {
                channels: self.channels.remove(player),
                owner: self.owner.remove_keys(self.channels[player]),
            }
        } else {
            self
        }
    }

    /// A registry stays well formed when a channel leaves it.
    pub proof fn lemma_remove_channel_wf(self, player: Seq<char>, channel: Seq<char>)
        requires
            self.wf(),
        ensures
            self.remove_channel(player, channel).wf(),
            !self.remove_channel(player, channel).owner.contains_key(channel) || self.owner[channel]
                != player,
    {
        reveal(RegistryModel::wf);
        let after = self.remove_channel(player, channel);
        if self.owner.contains_key(channel) && self.owner[channel] == player {
            let left = self.channels[player].remove(channel);
            assert forall|c: Seq<char>| #[trigger] after.owner.contains_key(c) implies {
                &&& after.channels.contains_key(after.owner[c])
                &&& after.channels[after.owner[c]].contains(c)
            } by {
                assert(self.owner.contains_key(c));
                if self.owner[c] == player {
                    assert(left.contains(c));
                }
            }
        }
    }

    /// A registry stays well formed when a channel arrives, and then holds
    /// the channel as that of its player.
    pub proof fn lemma_add_channel_wf(self, player: Seq<char>, channel: Seq<char>)
        requires
            self.wf(),
        ensures
            self.add_channel(player, channel).wf(),
            self.add_channel(player, channel).player_of(channel) == Some(player),
            self.add_channel(player, channel).channels.contains_key(player),
            self.add_channel(player, channel).channels[player].contains(channel),
    {
        reveal(RegistryModel::wf);
        let freed = if self.owner.contains_key(channel) && self.owner[channel] != player {
            self.remove_channel(self.owner[channel], channel)
        } else {
            self
        };
        if self.owner.contains_key(channel) && self.owner[channel] != player {
            self.lemma_remove_channel_wf(self.owner[channel], channel);
        }
        let after = self.add_channel(player, channel);
        assert(after.channels[player].contains(channel));
        assert forall|c: Seq<char>| #[trigger] after.owner.contains_key(c) implies {
            &&& after.channels.contains_key(after.owner[c])
            &&& after.channels[after.owner[c]].contains(c)
        } by {
            if c != channel {
                assert(freed.owner.contains_key(c));
            }
        }
        assert forall|p: Seq<char>, c: Seq<char>|
            after.channels.contains_key(p) && #[trigger] after.channels[p].contains(c) implies {
            &&& after.owner.contains_key(c)
            &&& after.owner[c] == p
        } by {
            if c == channel && p != player {
                assert(freed.channels[p].contains(c));
            }
        }
    }

    /// A channel that arrives again for the player that it stands for changes
    /// nothing.
    pub proof fn lemma_add_channel_again(self, player: Seq<char>, channel: Seq<char>)
        requires
            self.wf(),
            self.player_of(channel) == Some(player),
        ensures
            self.add_channel(player, channel) == self,
    {
        reveal(RegistryModel::wf);
        let after = self.add_channel(player, channel);
        assert(self.channels[player].insert(channel) =~= self.channels[player]);
        assert(after.channels =~= self.channels);
        assert(after.owner =~= self.owner);
    }

    /// A channel that arrives for another player than the one that it stands
    /// for leaves that one first. The other players stay as they are.
    pub proof fn lemma_add_channel_taken(self, player: Seq<char>, channel: Seq<char>)
        requires
            self.wf(),
            self.owner.contains_key(channel),
            self.owner[channel] != player,
        ensures
            self.remove_channel(self.owner[channel], channel).wf(),
            !self.remove_channel(self.owner[channel], channel).owner.contains_key(channel),
            self.remove_channel(self.owner[channel], channel).channels.contains_key(player)
                == self.channels.contains_key(player),
            self.add_channel(player, channel) == self.remove_channel(
                self.owner[channel],
                channel,
            ).add_channel(player, channel),
    {
        self.lemma_remove_channel_wf(self.owner[channel], channel);
    }

    /// A channel that arrives twice in a row has arrived once.
    pub proof fn lemma_add_channel_twice(self, player: Seq<char>, channel: Seq<char>)
        requires
            self.wf(),
        ensures
            self.add_channel(player, channel).add_channel(player, channel) == self.add_channel(
                player,
                channel,
            ),
    {
        self.lemma_add_channel_wf(player, channel);
        self.add_channel(player, channel).lemma_add_channel_again(player, channel);
    }

    /// A channel that leaves twice in a row has left once.
    pub proof fn lemma_remove_channel_twice(self, player: Seq<char>, channel: Seq<char>)
        ensures
            self.remove_channel(player, channel).remove_channel(player, channel)
                == self.remove_channel(player, channel),
    {
    }

    /// The registry without any player is well formed.
    pub proof fn lemma_empty_wf()
        ensures
            RegistryModel::empty().wf(),
    {
        reveal(RegistryModel::wf);
    }

    /// In a well-formed registry a player that is present has a channel, and
    /// a channel of a player is known as that player's.
    pub proof fn lemma_wf_holds(self, player: Seq<char>)
        requires
            self.wf(),
            self.channels.contains_key(player),
        ensures
            !self.channels[player].is_empty(),
            forall|c: Seq<char>| #[trigger]
                self.channels[player].contains(c) ==> self.player_of(c) == Some(player),
    {
        reveal(RegistryModel::wf);
    }

    /// In a well-formed registry the player of a channel is present, and the
    /// channel is one of its channels.
    pub proof fn lemma_wf_owner(self, channel: Seq<char>)
        requires
            self.wf(),
            self.owner.contains_key(channel),
        ensures
            self.channels.contains_key(self.owner[channel]),
            self.channels[self.owner[channel]].contains(channel),
    {
        reveal(RegistryModel::wf);
    }

    /// A registry stays well formed when channels arrive, and holds the
    /// player from the first of them on.
    pub proof fn lemma_add_wf(self, player: Seq<char>, channels: Seq<Seq<char>>)
        requires
            self.wf(),
        ensures
            self.add(player, channels).wf(),
            self.add(player, channels).channels.contains_key(player) <==> (
            self.channels.contains_key(player) || channels.len() > 0),
        decreases channels.len(),
    {
        if channels.len() > 0 {
            self.lemma_add_wf(player, channels.drop_last());
            self.add(player, channels.drop_last()).lemma_add_channel_wf(player, channels.last());
        }
    }

    /// Adding the first `i + 1` of `channels` is adding the first `i` of them
    /// and then the one at place `i`.
    pub proof fn lemma_add_step(self, player: Seq<char>, channels: Seq<Seq<char>>, i: int)
        requires
            0 <= i < channels.len(),
        ensures
            self.add(player, channels.subrange(0, i + 1)) == self.add(
                player,
                channels.subrange(0, i),
            ).add_channel(player, channels[i]),
    {
        let next = channels.subrange(0, i + 1);
        assert(next.drop_last() =~= channels.subrange(0, i));
        assert(next.last() == channels[i]);
    }

    /// A registry stays well formed when a player leaves it, and then knows
    /// neither the player nor any channel that stood for it.
    pub proof fn lemma_remove_wf(self, player: Seq<char>)
        requires
            self.wf(),
        ensures
            self.remove(player).wf(),
            !self.remove(player).channels.contains_key(player),
            forall|c: Seq<char>| #[trigger]
                self.remove(player).owner.contains_key(c) ==> self.remove(player).owner[c]
                    != player,
            forall|c: Seq<char>|
                self.owner.contains_key(c) && self.owner[c] != player ==> #[trigger] self.remove(
                    player,
                ).player_of(c) == Some(self.owner[c]),
    {
        reveal(RegistryModel::wf);
        let after = self.remove(player);
        assert forall|c: Seq<char>| #[trigger] after.owner.contains_key(c) implies {
            &&& after.owner[c] != player
            &&& after.channels.contains_key(after.owner[c])
            &&& after.channels[after.owner[c]].contains(c)
        } by {
            assert(self.owner.contains_key(c));
        }
        assert forall|c: Seq<char>|
            self.owner.contains_key(c) && self.owner[c] != player implies #[trigger] after.player_of(
            c,
        ) == Some(self.owner[c]) by {
            if self.channels.contains_key(player) && self.channels[player].contains(c) {
                assert(self.owner[c] == player);
            }
        }
    }
}

/// The channels that a list of channels holds.
pub open spec fn channel_set(list: Vec<String>) -> Set<Seq<char>> {
    names_of(list@).to_set()
}

/// The players that are present, each with its channels, and the player of
/// each channel.
pub struct Players {
    players: StringHashMap<Vec<String>>,
    rev_players: StringHashMap<String>,
}

impl View for Players {
    type V = RegistryModel;

    closed spec fn view(&self) -> RegistryModel {
        RegistryModel {
            channels: self.players@.map_values(|list: Vec<String>| channel_set(list)),
            owner: self.rev_players@.map_values(|player: String| player@),
        }
    }
}

impl Default for Players {
    fn default() -> (registry: Self)
        ensures
            registry@ == RegistryModel::empty(),
            registry.wf(),
    {
        Players::new()
    }
}

impl Players {
    /// No player's list of channels holds a channel twice.
    pub closed spec fn lists_distinct(&self) -> bool {
        forall|p: Seq<char>| #[trigger]
            self.players@.contains_key(p) ==> names_of(self.players@[p]@).no_duplicates()
    }

    /// The registry is consistent: the channels of the players and the
    /// players of the channels agree, and no player is held without a channel.
    pub open spec fn wf(&self) -> bool {
        self@.wf() && self.lists_distinct()
    }

    /// A registry without any player.
    pub fn new() -> (registry: Self)
        ensures
            registry@ == RegistryModel::empty(),
            registry.wf(),
    {
        let registry = Players { players: StringHashMap::new(), rev_players: StringHashMap::new() };
        proof {
            RegistryModel::lemma_empty_wf();
        }
        assert(registry@.channels =~= Map::empty());
        assert(registry@.owner =~= Map::empty());
        registry
    }

    /// The player that `channel` stands for, if the channel is known.
    pub fn find_by_channel(&self, channel: &str) -> (player: Option<String>)
        ensures
            name_of(player) == self@.player_of(channel@),
    {
        match self.rev_players.get(channel) {
            Some(player) => Some(player.clone()),
            None => None,
        }
    }

    /// The channels of `name`, each once, if the player is present.
    pub fn get_channels(&self, name: &str) -> (channels: Option<&Vec<String>>)
        requires
            self.wf(),
        ensures
            match channels {
                Some(list) => {
                    &&& self@.channels_of(name@) == Some(channel_set(*list))
                    &&& names_of(list@).no_duplicates()
                    &&& list@.len() > 0
                },
                None => self@.channels_of(name@).is_none(),
            },
    {
        let channels = self.players.get(name);
        proof {
            if let Some(list) = channels {
                assert(self@.channels.contains_key(name@));
                self@.lemma_wf_holds(name@);
                assert(!channel_set(*list).is_empty());
                if list@.len() == 0 {
                    assert(channel_set(*list) =~= Set::empty());
                }
            }
        }
        channels
    }

    /// Notes that `channel` no longer stands for `name`. A player that is
    /// left without a channel leaves the registry. Where `channel` does not
    /// stand for `name`, nothing changes.
    pub fn remove_channel(&mut self, name: &str, channel: &str)
        requires
            old(self).wf(),
        ensures
            final(self).wf(),
            final(self)@ == old(self)@.remove_channel(name@, channel@),
    {
        let key = name.to_owned();
        let owned = match self.rev_players.get(channel) {
            Some(owner) => *owner == key,
            None => false,
        };
        if owned {
            proof {
                old(self)@.lemma_remove_channel_wf(name@, channel@);
                old(self)@.lemma_wf_owner(channel@);
            }
            let gone = channel.to_owned();
            let kept: Option<Vec<String>> = match self.players.get(name) {
                Some(list) => {
                    let mut kept = clone_names(list);
                    remove_name(&mut kept, &gone);
                    proof {
                        lemma_without_holds(names_of(list@), channel@);
                        assert(channel_set(kept) =~= channel_set(*list).remove(channel@)) by {
                            assert forall|c: Seq<char>|
                                channel_set(kept).contains(c) <==> channel_set(*list).remove(
                                    channel@,
                                ).contains(c) by {
                                assert(channel_set(kept).contains(c) <==> names_of(kept@).contains(
                                    c,
                                ));
                                assert(channel_set(*list).contains(c) <==> names_of(
                                    list@,
                                ).contains(c));
                            }
                        }
                    }
                    Some(kept)
                },
                None => None,
            };
            if let Some(kept) = kept {
                let ghost left = old(self)@.channels[name@].remove(channel@);
                assert(channel_set(kept) == left);
                if kept.len() == 0 {
                    assert(left.is_empty()) by {
                        assert(names_of(kept@) =~= Seq::empty());
                    }
                    self.players.remove(name);
                } else {
                    assert(!left.is_empty()) by {
                        assert(names_of(kept@)[0] == kept@[0]@);
                        assert(names_of(kept@).contains(kept@[0]@));
                        assert(left.contains(kept@[0]@));
                    }
                    self.players.insert(key, kept);
                }
                self.rev_players.remove(channel);
                assert(self@.channels =~= old(self)@.remove_channel(name@, channel@).channels);
                assert(self@.owner =~= old(self)@.remove_channel(name@, channel@).owner);
            }
        }
    }

    /// Notes that `channel` stands for `name`, and says whether `name` was
    /// absent before. A channel stands for one player at a time: it ceases to
    /// stand for the player that it stood for before.
    pub fn add_channel(&mut self, name: String, channel: String) -> (created: bool)
        requires
            old(self).wf(),
        ensures
            final(self).wf(),
            final(self)@ == old(self)@.add_channel(name@, channel@),
            created == !old(self)@.channels.contains_key(name@),
            final(self)@.player_of(channel@) == Some(name@),
    {
        proof {
            old(self)@.lemma_add_channel_wf(name@, channel@);
        }
        let previous = self.find_by_channel(channel.as_str());
        match previous {
            Some(owner) => {
                if owner == name {
                    proof {
                        old(self)@.lemma_add_channel_again(name@, channel@);
                        old(self)@.lemma_wf_owner(channel@);
                    }
                    false
                } else {
                    proof {
                        old(self)@.lemma_add_channel_taken(name@, channel@);
                    }
                    self.remove_channel(owner.as_str(), channel.as_str());
                    self.claim(name, channel)
                }
            },
            None => self.claim(name, channel),
        }
    }

    /// Notes that `channel`, which stands for no player, stands for `name`.
    fn claim(&mut self, name: String, channel: String) -> (created: bool)
        requires
            old(self).wf(),
            !old(self)@.owner.contains_key(channel@),
        ensures
            final(self).lists_distinct(),
            final(self)@ == old(self)@.add_channel(name@, channel@),
            created == !old(self)@.channels.contains_key(name@),
    {
        let mut grown: Vec<String> = Vec::new();
        let created = match self.players.get(name.as_str()) {
            Some(list) => {
                grown = clone_names(list);
                proof {
                    if names_of(list@).contains(channel@) {
                        assert(old(self)@.channels[name@].contains(channel@));
                        old(self)@.lemma_wf_holds(name@);
                    }
                }
                false
            },
            None => {
                assert(names_of(grown@) =~= Seq::empty());
                true
            },
        };
        let ghost held = names_of(grown@);
        assert(held.to_set() == if old(self)@.channels.contains_key(name@) {
            old(self)@.channels[name@]
        } else {
            Set::empty()
        }) by {
            if !old(self)@.channels.contains_key(name@) {
                assert(held.to_set() =~= Set::empty());
            }
        }
        grown.push(channel.clone());
        proof {
            assert(names_of(grown@) =~= held.push(channel@));
            lemma_push_holds(held, channel@);
        }
        self.players.insert(name.clone(), grown);
        self.rev_players.insert(channel, name);
        assert(self@.channels =~= old(self)@.add_channel(name@, channel@).channels);
        assert(self@.owner =~= old(self)@.add_channel(name@, channel@).owner);
        created
    }

    /// Notes that each of `channels`, in turn, stands for `name`, and says
    /// whether that made `name` present: it was absent before, and there was
    /// a channel to hold it by.
    pub fn add(&mut self, name: String, channels: Vec<String>) -> (created: bool)
        requires
            old(self).wf(),
        ensures
            final(self).wf(),
            final(self)@ == old(self)@.add(name@, names_of(channels@)),
            created == (!old(self)@.channels.contains_key(name@) && channels@.len() > 0),
            final(self)@.channels.contains_key(name@) <==> (old(self)@.channels.contains_key(name@)
                || channels@.len() > 0),
    {
        let ghost all = names_of(channels@);
        let mut created = false;
        let mut i: usize = 0;
        assert(all.subrange(0, 0) =~= Seq::empty());
        while i < channels.len()
            invariant
                i <= channels.len(),
                all == names_of(channels@),
                self.wf(),
                self@ == old(self)@.add(name@, all.subrange(0, i as int)),
                created == (i > 0 && !old(self)@.channels.contains_key(name@)),
                i > 0 ==> self@.channels.contains_key(name@),
                i == 0 ==> self@ == old(self)@,
            decreases channels.len() - i,
        {
            let fresh = self.add_channel(name.clone(), channels[i].clone());
            proof {
                old(self)@.lemma_add_step(name@, all, i as int);
            }
            created = created || fresh;
            i += 1;
        }
        proof {
            assert(all.subrange(0, i as int) =~= all);
            old(self)@.lemma_add_wf(name@, all);
        }
        created
    }

    /// Notes that `name` has left, with all its channels. A player that is
    /// not present changes nothing.
    pub fn remove(&mut self, name: &str)
        requires
            old(self).wf(),
        ensures
            final(self).wf(),
            final(self)@ == old(self)@.remove(name@),
            !final(self)@.channels.contains_key(name@),
            forall|c: Seq<char>| #[trigger]
                final(self)@.owner.contains_key(c) ==> final(self)@.owner[c] != name@,
    {
        proof {
            old(self)@.lemma_remove_wf(name@);
        }
        let held: Option<Vec<String>> = match self.players.get(name) {
            Some(list) => Some(clone_names(list)),
            None => None,
        };
        if let Some(list) = held {
            let ghost gone = names_of(list@);
            assert(gone.to_set() == old(self)@.channels[name@]);
            assert(old(self)@.channels.contains_key(name@));
            self.players.remove(name);
            let mut i: usize = 0;
            while i < list.len()
                invariant
                    i <= list.len(),
                    gone == names_of(list@),
                    self.players@ == old(self).players@.remove(name@),
                    self.rev_players@ == old(self).rev_players@.remove_keys(
                        gone.subrange(0, i as int).to_set(),
                    ),
                decreases list.len() - i,
            {
                self.rev_players.remove(list[i].as_str());
                proof {
                    let before = gone.subrange(0, i as int);
                    let next = gone.subrange(0, i + 1);
                    assert(next.to_set() =~= before.to_set().insert(gone[i as int])) by {
                        assert forall|c: Seq<char>|
                            next.to_set().contains(c) <==> before.to_set().insert(
                                gone[i as int],
                            ).contains(c) by {
                            if next.contains(c) {
                                let j = choose|j: int| 0 <= j < next.len() && next[j] == c;
                                if j < i {
                                    assert(before[j] == c);
                                }
                            }
                            if before.contains(c) {
                                let j = choose|j: int| 0 <= j < before.len() && before[j] == c;
                                assert(next[j] == c);
                            }
                            if c == gone[i as int] {
                                assert(next[i as int] == c);
                            }
                        }
                    }
                    assert(self.rev_players@ =~= old(self).rev_players@.remove_keys(
                        next.to_set(),
                    ));
                }
                i += 1;
            }
            assert(gone.subrange(0, i as int) =~= gone);
            assert(self@.channels =~= old(self)@.remove(name@).channels);
            assert(self@.owner =~= old(self)@.remove(name@).owner);
        }
    }
}

} // verus!
