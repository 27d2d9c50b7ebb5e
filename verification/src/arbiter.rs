//! Event ingestion: what each event of the bus does to the registry and to
//! the queue.
//!
//! Three kinds of events reach the watcher. A player appears on the bus or
//! disappears from it; a player starts or stops playing; a user asks for the
//! next or the previous player. The bus delivers them in no certain order, and
//! may deliver one more than once. So an event that does not fit what is known
//! is passed over, and none is an error.
//!
//! Whoever receives the events does what the bus alone can do: it asks a
//! player that has appeared whether it is playing, and after each event that
//! was applied it wakes the notifier.

use crate::constants::{ACTIVE_PLAYER_PROPERTY, PLAYING_STATUS, SHIFT_METHOD, UNSHIFT_METHOD};
use crate::names::{clone_names, name_of, names_of, same_name};
use crate::players::{is_player, is_player_name, Players, RegistryModel};
use crate::players_queue::{ArrivalPolicy, PlayersQueue, QueueModel};
use vstd::prelude::*;

verus! {

/// The answer of the bus to the request for the name of the watcher.
#[derive(Clone, Copy, Debug, PartialEq, Eq, Structural)]
pub enum NameReply {
    /// The name was free: the process owns it now.
    PrimaryOwner,
    /// Another process owns the name, and the process waits in line for it.
    InQueue,
    /// Another process owns the name, and the process does not wait for it.
    Exists,
    /// The process owned the name already.
    AlreadyOwner,
}

/// Tells whether the watcher may start. One watcher runs in a session: the
/// one that has just become the owner of the name. After any other answer
/// a watcher is running already.
pub fn may_start(reply: NameReply) -> (start: bool)
    ensures
        start == (reply == NameReply::PrimaryOwner),
{
    match reply {
        NameReply::PrimaryOwner => true,
        _ => false,
    }
}

/// What became of a change of playback status.
#[derive(Clone, Copy, Debug, PartialEq, Eq, Structural)]
pub enum StatusChange {
    /// It was passed over: it had no sender or no status, or it came from a
    /// channel that is not known.
    Ignored,
    /// It was applied to the player of its channel.
    Applied {
        /// Whether the status is that of a player that is playing: the player
        /// was promoted if so, and demoted if not.
        playing: bool,
        /// Whether the player stood in the queue. One that did not could be
        /// neither promoted nor demoted, which is worth a note in a log.
        queued: bool,
    },
}

/// What a change of the owner of a bus name means to the watcher.
#[derive(Clone, Copy, Debug, PartialEq, Eq, Structural)]
pub enum Presence {
    /// Nothing: the name is not that of a player, or the change is neither
    /// an arrival nor a departure.
    Ignored,
    /// A player has appeared: the name had no owner, and has one now.
    Appeared,
    /// A player has disappeared: the name had an owner, and has none now.
    Disappeared,
}

/// What it means that the owner of `name` has changed from `old_owner` to
/// `new_owner`, where an empty owner stands for none.
pub open spec fn presence_of(name: Seq<char>, old_owner: Seq<char>, new_owner: Seq<char>) -> Presence {
    if !is_player_name(name) {
        Presence::Ignored
    } else if old_owner.len() == 0 && new_owner.len() > 0 {
        Presence::Appeared
    } else if old_owner.len() > 0 && new_owner.len() == 0 {
        Presence::Disappeared
    } else {
        Presence::Ignored
    }
}

/// Says what it means that the owner of `name` has changed from `old_owner`
/// to `new_owner`, where an empty owner stands for none.
pub fn classify_presence(name: &str, old_owner: &str, new_owner: &str) -> (presence: Presence)
    ensures
        presence == presence_of(name@, old_owner@, new_owner@),
{
    if !is_player(name) {
        Presence::Ignored
    } else if old_owner.is_empty() && !new_owner.is_empty() {
        Presence::Appeared
    } else if !old_owner.is_empty() && new_owner.is_empty() {
        Presence::Disappeared
    } else {
        Presence::Ignored
    }
}

/// The names of players among `names`, in their order.
pub open spec fn players_among(names: Seq<Seq<char>>) -> Seq<Seq<char>> {
    names.filter(|name: Seq<char>| is_player_name(name))
}

/// Picks the names of players out of the names on the bus, in their order.
pub fn select_players(names: &Vec<String>) -> (players: Vec<String>)
    ensures
        names_of(players@) == players_among(names_of(names@)),
{
    let ghost all = names_of(names@);
    let mut players: Vec<String> = Vec::new();
    let mut i: usize = 0;
    proof {
        reveal(Seq::filter);
        assert(all.subrange(0, 0) =~= Seq::empty());
        assert(names_of(players@) =~= players_among(all.subrange(0, 0)));
    }
    while i < names.len()
        invariant
            i <= names.len(),
            all == names_of(names@),
            names_of(players@) == players_among(all.subrange(0, i as int)),
        decreases names.len() - i,
    {
        let ghost before = names_of(players@);
        if is_player(names[i].as_str()) {
            players.push(names[i].clone());
            assert(names_of(players@) =~= before.push(all[i as int]));
        }
        proof {
            reveal(Seq::filter);
            let next = all.subrange(0, i + 1);
            assert(next.drop_last() =~= all.subrange(0, i as int));
            assert(next.last() == all[i as int]);
        }
        i += 1;
    }
    assert(all.subrange(0, i as int) =~= all);
    players
}

/// Whether a player is playing, by the answer to the question for its
/// playback status. No answer counts as not playing.
pub open spec fn probed_playing(status: Option<Seq<char>>) -> bool {
    status == Some(PLAYING_STATUS@)
}

/// Tells whether a player is playing, by the answer to the question for its
/// playback status. No answer counts as not playing.
pub fn playing_from_probe(status: &Option<String>) -> (playing: bool)
    ensures
        playing == probed_playing(name_of(*status)),
{
    match status {
        Some(value) => same_name(value.as_str(), PLAYING_STATUS),
        None => false,
    }
}

/// What the watcher knows, as contracts see it.
pub struct ArbiterModel {
    /// The players that are present, with their channels.
    pub registry: RegistryModel,
    /// The players in order of priority.
    pub queue: QueueModel,
}

impl ArbiterModel {
    /// Both the registry and the queue are well formed.
    pub open spec fn wf(self) -> bool {
        self.registry.wf() && self.queue.wf()
    }

    /// What is known before any event, where the queue is under the policy
    /// `policy`.
    pub open spec fn empty(policy: ArrivalPolicy) -> ArbiterModel {
        ArbiterModel { registry: RegistryModel::empty(), queue: QueueModel::empty(policy) }
    }

    /// What is known after `name` has appeared with `channels`, and has
    /// answered the question for its playback status with `status`. A player
    /// enters the registry and the queue together, with its first channel: one
    /// that comes without a channel enters neither, and nothing changes.
    pub open spec fn appeared(
        self,
        name: Seq<char>,
        channels: Seq<Seq<char>>,
        status: Option<Seq<char>>,
    ) -> ArbiterModel {
        if channels.len() == 0 {
            self
        } else {
            ArbiterModel {
                registry: self.registry.add(name, channels),
                queue: self.queue.add_player(name, probed_playing(status)),
            }
        }
    }

    /// What is known after `name` has disappeared from `channel`.
    pub open spec fn disappeared(self, name: Seq<char>, channel: Seq<char>) -> ArbiterModel {
        ArbiterModel {
            registry: self.registry.remove_channel(name, channel),
            queue: self.queue.remove_player(name),
        }
    }

    /// The player that a change of playback status is about: the player of
    /// the channel that sent it. There is none where the sender or the status
    /// is missing, or where the channel is not known.
    pub open spec fn subject(
        self,
        sender: Option<Seq<char>>,
        status: Option<Seq<char>>,
    ) -> Option<Seq<char>> {
        match (sender, status) {
            (Some(channel), Some(_)) => self.registry.player_of(channel),
            _ => None,
        }
    }

    /// What is known after the channel `sender` has announced the playback
    /// status `status`: its player is promoted if the status is that of a
    /// player that is playing, and demoted otherwise. An announcement without
    /// a subject changes nothing.
    pub open spec fn status_changed(
        self,
        sender: Option<Seq<char>>,
        status: Option<Seq<char>>,
    ) -> ArbiterModel {
        match self.subject(sender, status) {
            Some(player) => ArbiterModel {
                registry: self.registry,
                queue: if probed_playing(status) {
                    self.queue.promote(player)
                } else {
                    self.queue.demote(player)
                },
            },
            None => self,
        }
    }

    /// What becomes of a change of playback status that the channel `sender`
    /// has announced: it is passed over where it has no subject, and applied
    /// to its subject otherwise.
    pub open spec fn status_outcome(
        self,
        sender: Option<Seq<char>>,
        status: Option<Seq<char>>,
    ) -> StatusChange {
        match self.subject(sender, status) {
            Some(player) => StatusChange::Applied {
                playing: probed_playing(status),
                queued: self.queue.order.contains(player),
            },
            None => StatusChange::Ignored,
        }
    }

    /// Whether `member` names a command of the watcher.
    pub open spec fn is_command(member: Seq<char>) -> bool {
        member == SHIFT_METHOD@ || member == UNSHIFT_METHOD@
    }

    /// What is known after the command `member`: the queue is rotated to the
    /// left for the one command and to the right for the other. Any other
    /// name changes nothing.
    pub open spec fn command(self, member: Seq<char>) -> ArbiterModel {
        if member == SHIFT_METHOD@ {
            ArbiterModel { registry: self.registry, queue: self.queue.shift() }
        } else if member == UNSHIFT_METHOD@ {
            ArbiterModel { registry: self.registry, queue: self.queue.unshift() }
        } else {
            self
        }
    }

    /// The name of the active player as the watcher gives it out: empty
    /// where no player is active.
    pub open spec fn active_name(self) -> Seq<char> {
        match self.queue.active() {
            Some(name) => name,
            None => Seq::empty(),
        }
    }

    /// The channels of the active player as the watcher gives them out: none
    /// where no player is active, or where the registry does not hold the
    /// active player.
    pub open spec fn active_channels(self) -> Set<Seq<char>> {
        match self.queue.active() {
            Some(name) => match self.registry.channels_of(name) {
                Some(channels) => channels,
                None => Set::empty(),
            },
            None => Set::empty(),
        }
    }

    /// A player that appears with a channel stands in the registry and in the
    /// queue afterwards. One that appears without a channel changes nothing.
    pub proof fn lemma_appeared_enters_both(
        self,
        name: Seq<char>,
        channels: Seq<Seq<char>>,
        status: Option<Seq<char>>,
    )
        requires
            self.wf(),
        ensures
            channels.len() > 0 ==> self.appeared(name, channels, status).registry.channels.contains_key(
                name,
            ) && self.appeared(name, channels, status).queue.order.contains(name),
            channels.len() == 0 ==> self.appeared(name, channels, status) == self,
    {
        self.registry.lemma_add_wf(name, channels);
        self.queue.lemma_add_player_wf(name, probed_playing(status));
    }

    /// Where no player is active, the watcher gives out an empty name and no
    /// channel, whatever the registry holds.
    pub proof fn lemma_no_active_player_no_channels(self)
        requires
            self.queue.active().is_none(),
        ensures
            self.active_name() == Seq::<char>::empty(),
            self.active_channels() == Set::<Seq<char>>::empty(),
    {
    }

    /// Every event leaves what is known well formed.
    pub proof fn lemma_events_keep_wf(self)
        requires
            self.wf(),
        ensures
            forall|name: Seq<char>, channels: Seq<Seq<char>>, status: Option<Seq<char>>|
                (#[trigger] self.appeared(name, channels, status)).wf(),
            forall|name: Seq<char>, channel: Seq<char>|
                (#[trigger] self.disappeared(name, channel)).wf(),
            forall|sender: Option<Seq<char>>, status: Option<Seq<char>>|
                (#[trigger] self.status_changed(sender, status)).wf(),
            forall|member: Seq<char>| (#[trigger] self.command(member)).wf(),
    {
        assert forall|name: Seq<char>, channels: Seq<Seq<char>>, status: Option<Seq<char>>|
            (#[trigger] self.appeared(name, channels, status)).wf() by {
            self.registry.lemma_add_wf(name, channels);
            self.queue.lemma_add_player_wf(name, probed_playing(status));
        }
        assert forall|name: Seq<char>, channel: Seq<char>|
            (#[trigger] self.disappeared(name, channel)).wf() by {
            self.registry.lemma_remove_channel_wf(name, channel);
            self.queue.lemma_remove_player_wf(name);
        }
        assert forall|sender: Option<Seq<char>>, status: Option<Seq<char>>|
            (#[trigger] self.status_changed(sender, status)).wf() by {
            match self.subject(sender, status) {
                Some(player) => {
                    self.queue.lemma_promote_wf(player);
                    self.queue.lemma_demote_wf(player);
                },
                None => {},
            }
        }
        assert forall|member: Seq<char>| (#[trigger] self.command(member)).wf() by {
            self.queue.lemma_shift_wf();
        }
    }
}

/// What the watcher knows: the players that are present, and their order.
pub struct Arbiter {
    /// The players that are present, with their channels.
    pub players: Players,
    /// The players in order of priority.
    pub queue: PlayersQueue,
}

impl View for Arbiter {
    type V = ArbiterModel;

    open spec fn view(&self) -> ArbiterModel {
        ArbiterModel { registry: self.players@, queue: self.queue@ }
    }
}

impl Default for Arbiter {
    fn default() -> (arbiter: Self)
        ensures
            arbiter@ == ArbiterModel::empty(ArrivalPolicy::Front),
            arbiter.wf(),
    {
        Arbiter::new()
    }
}

impl Arbiter {
    /// Both the registry and the queue are well formed.
    pub open spec fn wf(&self) -> bool {
        self.players.wf() && self.queue.wf()
    }

    /// A watcher that knows no player, and whose queue lets a head that is
    /// not playing give way to every arrival.
    pub fn new() -> (arbiter: Self)
        ensures
            arbiter@ == ArbiterModel::empty(ArrivalPolicy::Front),
            arbiter.wf(),
    {
        Arbiter::with_policy(ArrivalPolicy::Front)
    }

    /// A watcher that knows no player, and whose queue is under the policy
    /// `policy`.
    pub fn with_policy(policy: ArrivalPolicy) -> (arbiter: Self)
        ensures
            arbiter@ == ArbiterModel::empty(policy),
            arbiter.wf(),
    {
        Arbiter { players: Players::new(), queue: PlayersQueue::with_policy(policy) }
    }

    /// Takes in a player that has appeared: `name` is reached through
    /// `channels`, and `status` is its answer to the question for its playback
    /// status, if it gave one. The player enters the registry and the queue.
    /// Says whether the registry did not hold it before. A player that comes
    /// without a channel enters neither, and nothing changes.
    pub fn appeared(&mut self, name: String, channels: Vec<String>, status: Option<String>) -> (created:
        bool)
        requires
            old(self).wf(),
        ensures
            final(self).wf(),
            final(self)@ == old(self)@.appeared(name@, names_of(channels@), name_of(status)),
            created == (!old(self)@.registry.channels.contains_key(name@) && channels@.len() > 0),
            channels@.len() == 0 ==> final(self)@ == old(self)@,
            channels@.len() > 0 ==> final(self)@.registry.channels.contains_key(name@),
            channels@.len() > 0 ==> final(self)@.queue.order.contains(name@),
    {
        if channels.len() == 0 {
            return false;
        }
        let playing = playing_from_probe(&status);
        proof {
            old(self)@.queue.lemma_add_player_wf(name@, playing);
        }
        let created = self.players.add(name.clone(), channels);
        self.queue.add_player(name, playing);
        created
    }

    /// Takes out a player that has disappeared: `channel` no longer stands
    /// for `name`, and `name` leaves the queue.
    pub fn disappeared(&mut self, name: &str, channel: &str)
        requires
            old(self).wf(),
        ensures
            final(self).wf(),
            final(self)@ == old(self)@.disappeared(name@, channel@),
            !final(self)@.queue.order.contains(name@),
    {
        proof {
            old(self)@.queue.lemma_remove_player_wf(name@);
        }
        self.players.remove_channel(name, channel);
        self.queue.remove_player(name);
    }

    /// Takes in a change of playback status that the channel `sender` has
    /// announced. The player of the channel is promoted if `status` is that of
    /// a player that is playing, and demoted otherwise. An announcement
    /// without sender or without status, or from a channel that is not known,
    /// is passed over. Says what became of the announcement, and whether its
    /// player stood in the queue: where it did not, there was no one to
    /// promote or to demote.
    pub fn status_changed(&mut self, sender: Option<String>, status: Option<String>) -> (outcome:
        StatusChange)
        requires
            old(self).wf(),
        ensures
            final(self).wf(),
            final(self)@ == old(self)@.status_changed(name_of(sender), name_of(status)),
            outcome == old(self)@.status_outcome(name_of(sender), name_of(status)),
            outcome == StatusChange::Ignored ==> final(self)@ == old(self)@,
    {
        let player = match (&sender, &status) {
            (Some(channel), Some(_)) => self.players.find_by_channel(channel.as_str()),
            _ => None,
        };
        match player {
            Some(player) => {
                let playing = playing_from_probe(&status);
                let queued = self.queue.contains(player.as_str());
                if playing {
                    let _ = self.queue.promote(player);
                } else {
                    let _ = self.queue.demote(player);
                }
                StatusChange::Applied { playing, queued }
            },
            None => StatusChange::Ignored,
        }
    }

    /// Takes in the command `member`: the queue is rotated to the left for
    /// the one command and to the right for the other. Says whether `member`
    /// names a command: any other name is passed over.
    pub fn command(&mut self, member: &str) -> (applied: bool)
        requires
            old(self).wf(),
        ensures
            final(self).wf(),
            final(self)@ == old(self)@.command(member@),
            applied == ArbiterModel::is_command(member@),
    {
        if same_name(member, SHIFT_METHOD) {
            self.queue.shift();
            true
        } else if same_name(member, UNSHIFT_METHOD) {
            self.queue.unshift();
            true
        } else {
            false
        }
    }

    /// The active player as the watcher gives it out: its name and its
    /// channels, each once. Where no player is active, the name is empty and
    /// there are no channels.
    pub fn active_player(&self) -> (reply: (String, Vec<String>))
        requires
            self.wf(),
        ensures
            reply.0@ == self@.active_name(),
            names_of(reply.1@).to_set() == self@.active_channels(),
            names_of(reply.1@).no_duplicates(),
            self@.queue.active().is_none() ==> reply.0@.len() == 0 && reply.1@.len() == 0,
    {
        match self.queue.get_active() {
            Some(name) => {
                let channels = match self.players.get_channels(name.as_str()) {
                    Some(list) => clone_names(list),
                    None => {
                        let none: Vec<String> = Vec::new();
                        assert(names_of(none@).to_set() =~= Set::empty());
                        none
                    },
                };
                (name, channels)
            },
            None => {
                let none: Vec<String> = Vec::new();
                assert(names_of(none@).to_set() =~= Set::empty());
                (String::new(), none)
            },
        }
    }

    /// Answers a question for the property `property` of the watcher: with
    /// the active player, if that is the property asked for, and not at all
    /// otherwise.
    pub fn property(&self, property: &str) -> (reply: Option<(String, Vec<String>)>)
        requires
            self.wf(),
        ensures
            reply.is_some() == (property@ == ACTIVE_PLAYER_PROPERTY@),
            match reply {
                Some(active) => {
                    &&& active.0@ == self@.active_name()
                    &&& names_of(active.1@).to_set() == self@.active_channels()
                    &&& names_of(active.1@).no_duplicates()
                    &&& self@.queue.active().is_none() ==> active.0@.len() == 0 && active.1@.len()
                        == 0
                },
                None => true,
            },
    {
        if same_name(property, ACTIVE_PLAYER_PROPERTY) {
            Some(self.active_player())
        } else {
            None
        }
    }
}

} // verus!
