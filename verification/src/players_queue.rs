//! The arbitration queue: the players in order of priority.
//!
//! The head of the queue is the active player. The queue also knows which of
//! its players are playing. A player that starts to play moves to the head; a
//! player that stops yields the head to the first player that still plays.
//! Both moves rotate only the part of the queue in front of the player that
//! moves, so the order of all others among themselves stays as it was.

use crate::names::{
    clone_names, lemma_without_absent, lemma_without_holds, lemma_without_present, name_of,
    names_of, position_of, remove_name, without,
};
use vstd::hash_set::StringHashSet;
use vstd::prelude::*;

verus! {

/// `list` with its part from place 0 up to and including place `k` rotated
/// one step to the right: the item at `k` comes to the front, and the items
/// that stood before it move back by one place each.
pub open spec fn rotated_to_front<A>(list: Seq<A>, k: int) -> Seq<A>
    recommends
        0 <= k < list.len(),
{
    Seq::new(
        list.len(),
        |i: int|
            if i == 0 {
                list[k]
            } else if i <= k {
                list[i - 1]
            } else {
                list[i]
            },
    )
}

/// Where a player that is not playing arrives in a queue whose head is not
/// playing either. In every other case the place of an arrival is the same
/// under both policies.
#[derive(Clone, Copy, Debug, PartialEq, Eq, Structural)]
pub enum ArrivalPolicy {
    /// At the front: a head that is not playing gives way to every arrival.
    Front,
    /// Behind the head: a head gives way only to a player that is playing.
    BehindHead,
}

/// What a queue holds, as contracts see it.
pub struct QueueModel {
    /// The players in order of priority, the active one first.
    pub order: Seq<Seq<char>>,
    /// The players that are playing.
    pub playing: Set<Seq<char>>,
    /// Where arrivals that are not playing go when the head is not playing.
    pub policy: ArrivalPolicy,
}

impl QueueModel {
    /// No player stands in the queue twice, and every player that is playing
    /// stands in it.
    pub open spec fn wf(self) -> bool {
        &&& self.order.no_duplicates()
        &&& forall|id: Seq<char>| self.playing.contains(id) ==> self.order.contains(id)
    }

    /// The queue without any player, under the policy `policy`.
    pub open spec fn empty(policy: ArrivalPolicy) -> QueueModel {
        QueueModel { order: Seq::empty(), playing: Set::empty(), policy }
    }

    /// The active player: the head of the queue, if there is one.
    pub open spec fn active(self) -> Option<Seq<char>> {
        if self.order.len() > 0 {
            Some(self.order[0])
        } else {
            None
        }
    }

    /// The queue after `id` has been marked as playing or as not playing. A
    /// player that is not in the queue cannot be marked as playing.
    pub open spec fn set_playing(self, id: Seq<char>, playing: bool) -> QueueModel {
        if !playing {
            QueueModel { playing: self.playing.remove(id), ..self }
        } else if self.order.contains(id) {
            QueueModel { playing: self.playing.insert(id), ..self }
        } else {
            self
        }
    }

    /// The queue after `id` has left it.
    pub open spec fn remove_player(self, id: Seq<char>) -> QueueModel {
        QueueModel { order: without(self.order, id), playing: self.playing.remove(id), ..self }
    }

    /// The place that `id` takes when it arrives. It is the front if the
    /// queue is empty, if `id` is playing, or if `id` is the head already. It
    /// is the place right behind the head if the head is playing. Where
    /// neither the head nor `id` is playing, the policy of the queue decides.
    pub open spec fn arrival_place(self, id: Seq<char>, playing: bool) -> int {
        if self.order.len() == 0 || playing || self.order[0] == id {
            0
        } else if self.playing.contains(self.order[0]) {
            1
        } else {
            match self.policy {
                ArrivalPolicy::Front => 0,
                ArrivalPolicy::BehindHead => 1,
            }
        }
    }

    /// The queue after `id` has arrived. A player that was in the queue
    /// already leaves its old place.
    pub open spec fn add_player(self, id: Seq<char>, playing: bool) -> QueueModel {
        QueueModel {
            order: without(self.order, id).insert(self.arrival_place(id, playing), id),
            playing: if playing {
                self.playing.insert(id)
            } else {
                self.playing.remove(id)
            },
            policy: self.policy,
        }
    }

    /// The queue after `id` has started to play. A player that is not in the
    /// queue changes nothing.
    pub open spec fn promote(self, id: Seq<char>) -> QueueModel {
        if self.order.contains(id) {
            QueueModel {
                order: rotated_to_front(self.order, self.order.index_of(id)),
                playing: self.playing.insert(id),
                policy: self.policy,
            }
        } else {
            self
        }
    }

    /// Whether `promote` moves `id`: it is in the queue, and not at its head.
    pub open spec fn promote_changes(self, id: Seq<char>) -> bool {
        self.order.contains(id) && self.order[0] != id
    }

    /// Place `k` holds the first player of the queue that is playing.
    pub open spec fn is_first_playing(self, k: int) -> bool {
        &&& 0 <= k < self.order.len()
        &&& self.playing.contains(self.order[k])
        &&& forall|j: int| 0 <= j < k ==> !self.playing.contains(#[trigger] self.order[j])
    }

    /// Some player of the queue is playing.
    pub open spec fn has_playing(self) -> bool {
        exists|k: int| self.is_first_playing(k)
    }

    /// The place of the first player of the queue that is playing.
    pub open spec fn first_playing(self) -> int
        recommends
            self.has_playing(),
    {
        choose|k: int| self.is_first_playing(k)
    }

    /// The queue after `id` has stopped playing: the first player that still
    /// plays comes to the front. Where none plays, the order stays.
    pub open spec fn demote(self, id: Seq<char>) -> QueueModel {
        let stopped = QueueModel { playing: self.playing.remove(id), ..self };
        if stopped.has_playing() {
            QueueModel {
                order: rotated_to_front(stopped.order, stopped.first_playing()),
                playing: stopped.playing,
                policy: self.policy,
            }
        } else {
            stopped
        }
    }

    /// Whether `demote` finds a player to bring to the front: some player
    /// other than `id` is playing.
    pub open spec fn demote_changes(self, id: Seq<char>) -> bool {
        QueueModel { playing: self.playing.remove(id), ..self }.has_playing()
    }

    /// The queue rotated one step to the left: the head becomes the tail.
    pub open spec fn shift(self) -> QueueModel {
        if self.order.len() == 0 {
            self
        } else {
            QueueModel {
                order: self.order.drop_first().push(self.order.first()),
                playing: self.playing,
                policy: self.policy,
            }
        }
    }

    /// The queue rotated one step to the right: the tail becomes the head.
    pub open spec fn unshift(self) -> QueueModel {
        if self.order.len() == 0 {
            self
        } else {
            QueueModel {
                order: rotated_to_front(self.order, self.order.len() - 1),
                playing: self.playing,
                policy: self.policy,
            }
        }
    }
}

/// Rotating a part of a list to the right keeps what the list holds, and
/// brings in no item twice.
pub proof fn lemma_rotated_holds_the_same<A>(list: Seq<A>, k: int)
    requires
        0 <= k < list.len(),
    ensures
        rotated_to_front(list, k).len() == list.len(),
        forall|e: A| rotated_to_front(list, k).contains(e) <==> list.contains(e),
        list.no_duplicates() ==> rotated_to_front(list, k).no_duplicates(),
{
    let turned = rotated_to_front(list, k);
    assert forall|e: A| turned.contains(e) <==> list.contains(e) by {
        if turned.contains(e) {
            let i = choose|i: int| 0 <= i < turned.len() && turned[i] == e;
            let m = if i == 0 {
                k
            } else if i <= k {
                i - 1
            } else {
                i
            };
            assert(list[m] == e);
        }
        if list.contains(e) {
            let m = choose|m: int| 0 <= m < list.len() && list[m] == e;
            let i = if m == k {
                0
            } else if m < k {
                m + 1
            } else {
                m
            };
            assert(turned[i] == e);
        }
    }
}

impl QueueModel {
    /// A queue stays well formed when a player leaves it.
    pub proof fn lemma_remove_player_wf(self, id: Seq<char>)
        requires
            self.wf(),
        ensures
            self.remove_player(id).wf(),
            !self.remove_player(id).order.contains(id),
            forall|e: Seq<char>|
                self.remove_player(id).order.contains(e) <==> (self.order.contains(e) && e != id),
    {
        lemma_without_holds(self.order, id);
    }

    /// A queue stays well formed when a player arrives.
    pub proof fn lemma_add_player_wf(self, id: Seq<char>, playing: bool)
        requires
            self.wf(),
        ensures
            self.add_player(id, playing).wf(),
            self.add_player(id, playing).order.contains(id),
            0 <= self.arrival_place(id, playing) <= without(self.order, id).len(),
    {
        self.lemma_remove_player_wf(id);
        let rest = without(self.order, id);
        let place = self.arrival_place(id, playing);
        if place == 1 {
            assert(self.order.contains(self.order[0]));
            assert(rest.contains(self.order[0]));
        }
        let grown = rest.insert(place, id);
        assert(grown[place] == id);
        assert forall|e: Seq<char>| rest.contains(e) implies grown.contains(e) by {
            let i = choose|i: int| 0 <= i < rest.len() && rest[i] == e;
            let m = if i < place {
                i
            } else {
                i + 1
            };
            assert(grown[m] == e);
        }
        assert forall|i: int, j: int| 0 <= i < j < grown.len() implies grown[i] != grown[j] by {
            if i != place && j != place {
                let a = if i < place {
                    i
                } else {
                    i - 1
                };
                let b = if j < place {
                    j
                } else {
                    j - 1
                };
                assert(grown[i] == rest[a] && grown[j] == rest[b]);
            } else if i == place {
                let b = j - 1;
                assert(grown[j] == rest[b]);
                assert(rest.contains(rest[b]));
            } else {
                let a = if i < place {
                    i
                } else {
                    i - 1
                };
                assert(grown[i] == rest[a]);
                assert(rest.contains(rest[a]));
            }
        }
    }

    /// Where a player arrives. One that is playing becomes the head. One that
    /// is not playing leaves a head that is playing where it is. Where the
    /// head is not playing either, the policy decides: under the one the
    /// arrival becomes the head, under the other the head stays. In an empty
    /// queue the arrival is the head.
    pub proof fn lemma_arrival(self, id: Seq<char>, playing: bool)
        requires
            self.wf(),
        ensures
            playing ==> self.add_player(id, playing).active() == Some(id),
            !playing && self.order.len() > 0 && self.playing.contains(self.order[0])
                ==> self.add_player(id, playing).active() == self.active(),
            !playing && self.order.len() == 0 ==> self.add_player(id, playing).active() == Some(
                id,
            ),
            !playing && self.order.len() > 0 && !self.playing.contains(self.order[0])
                && self.policy == ArrivalPolicy::Front ==> self.add_player(id, playing).active()
                == Some(id),
            !playing && self.order.len() > 0 && self.policy == ArrivalPolicy::BehindHead
                ==> self.add_player(id, playing).active() == self.active(),
    {
        self.lemma_add_player_wf(id, playing);
        if self.arrival_place(id, playing) == 1 {
            self.lemma_head_stays(id);
        }
    }

    /// The head of a queue stays the head when another player leaves.
    pub proof fn lemma_head_stays(self, id: Seq<char>)
        requires
            self.wf(),
            self.order.len() > 0,
            self.order[0] != id,
        ensures
            self.remove_player(id).active() == self.active(),
    {
        if self.order.contains(id) {
            let k = choose|k: int| 0 <= k < self.order.len() && self.order[k] == id;
            lemma_without_present(self.order, id, k);
        } else {
            lemma_without_absent(self.order, id);
        }
    }

    /// When the head leaves, the player behind it becomes the head.
    pub proof fn lemma_remove_head(self)
        requires
            self.wf(),
            self.order.len() > 0,
        ensures
            self.remove_player(self.order[0]).order == self.order.drop_first(),
            self.remove_player(self.order[0]).active() == (if self.order.len() > 1 {
                Some(self.order[1])
            } else {
                None
            }),
    {
        lemma_without_present(self.order, self.order[0], 0);
        assert(self.order.remove(0) =~= self.order.drop_first());
    }

    /// The place of a player in a well-formed queue is the only place that
    /// holds it.
    pub proof fn lemma_place_is_unique(self, id: Seq<char>, k: int)
        requires
            self.wf(),
            0 <= k < self.order.len(),
            self.order[k] == id,
        ensures
            self.order.contains(id),
            self.order.index_of(id) == k,
    {
        let m = self.order.index_of(id);
        assert(0 <= m < self.order.len() && self.order[m] == id);
    }

    /// A queue stays well formed when a player starts to play.
    pub proof fn lemma_promote_wf(self, id: Seq<char>)
        requires
            self.wf(),
        ensures
            self.promote(id).wf(),
    {
        if self.order.contains(id) {
            let k = self.order.index_of(id);
            lemma_rotated_holds_the_same(self.order, k);
        }
    }

    /// Promoting a player twice is promoting it once: the second call finds
    /// the player at the head, moves nothing and leaves the queue as the first
    /// call left it.
    pub proof fn lemma_promote_twice(self, id: Seq<char>)
        requires
            self.wf(),
        ensures
            self.order.contains(id) ==> self.promote(id).active() == Some(id),
            !self.promote(id).promote_changes(id),
            self.promote(id).promote(id) == self.promote(id),
    {
        if self.order.contains(id) {
            let k = self.order.index_of(id);
            let once = self.promote(id);
            self.lemma_promote_wf(id);
            assert(once.order[0] == id);
            once.lemma_place_is_unique(id, 0);
            assert(rotated_to_front(once.order, 0) =~= once.order);
            assert(once.playing.insert(id) =~= once.playing);
        }
    }

    /// Where no player but the head is playing, demoting the head finds no
    /// player to bring to the front: the order stays, and so does the head.
    pub proof fn lemma_demote_sole_playing_head(self)
        requires
            self.wf(),
            self.order.len() > 0,
            forall|id: Seq<char>| self.playing.contains(id) ==> id == self.order[0],
        ensures
            !self.demote_changes(self.order[0]),
            self.demote(self.order[0]).order == self.order,
            self.demote(self.order[0]).active() == self.active(),
    {
        let stopped = QueueModel { playing: self.playing.remove(self.order[0]), ..self };
        if stopped.has_playing() {
            let k = stopped.first_playing();
            assert(stopped.is_first_playing(k));
            assert(self.playing.contains(stopped.order[k]));
        }
    }

    /// A rotation to the left undoes one to the right, and a rotation to the
    /// right undoes one to the left.
    pub proof fn lemma_shift_round_trip(self)
        ensures
            self.shift().unshift() == self,
            self.unshift().shift() == self,
    {
        assert(self.shift().unshift().order =~= self.order);
        assert(self.unshift().shift().order =~= self.order);
    }

    /// A player that arrives twice in a row stands where it stood after it
    /// arrived once.
    pub proof fn lemma_add_player_twice(self, id: Seq<char>, playing: bool)
        requires
            self.wf(),
        ensures
            self.add_player(id, playing).add_player(id, playing) == self.add_player(id, playing),
    {
        let once = self.add_player(id, playing);
        let place = self.arrival_place(id, playing);
        let rest = without(self.order, id);
        self.lemma_add_player_wf(id, playing);
        assert(once.order[place] == id);
        lemma_without_present(once.order, id, place);
        assert(once.order.remove(place) =~= rest);
        if place == 1 {
            self.lemma_head_stays(id);
            assert(once.order[0] == self.order[0]);
        }
        assert(once.arrival_place(id, playing) == place);
        let twice = once.add_player(id, playing);
        assert(twice.playing =~= once.playing);
        assert(twice.order =~= once.order);
    }

    /// A player that leaves twice in a row has left once.
    pub proof fn lemma_remove_player_twice(self, id: Seq<char>)
        requires
            self.wf(),
        ensures
            self.remove_player(id).remove_player(id) == self.remove_player(id),
    {
        let once = self.remove_player(id);
        self.lemma_remove_player_wf(id);
        lemma_without_absent(once.order, id);
        assert(once.remove_player(id).playing =~= once.playing);
    }

    /// A player that stops twice in a row leaves the queue as it left it when
    /// it stopped once.
    pub proof fn lemma_demote_twice(self, id: Seq<char>)
        requires
            self.wf(),
        ensures
            self.demote(id).demote(id) == self.demote(id),
    {
        let stopped = QueueModel { playing: self.playing.remove(id), ..self };
        let once = self.demote(id);
        let again = QueueModel { playing: once.playing.remove(id), ..once };
        assert(again.playing =~= once.playing);
        if stopped.has_playing() {
            let k = stopped.first_playing();
            assert(stopped.is_first_playing(k));
            assert(once.order[0] == stopped.order[k]);
            assert(again.is_first_playing(0));
            again.lemma_first_playing_is_unique(0);
            assert(rotated_to_front(once.order, 0) =~= once.order);
        } else {
            assert(again == stopped);
        }
    }

    /// A player that starts to play leaves the others in the order in which
    /// they stood: without it, the queue is as it was without it.
    pub proof fn lemma_promote_keeps_the_others(self, id: Seq<char>)
        requires
            self.wf(),
        ensures
            without(self.promote(id).order, id) == without(self.order, id),
    {
        if self.order.contains(id) {
            let k = self.order.index_of(id);
            let turned = self.promote(id).order;
            self.lemma_promote_wf(id);
            lemma_without_present(self.order, id, k);
            assert(turned[0] == id);
            lemma_without_present(turned, id, 0);
            assert(turned.remove(0) =~= self.order.remove(k));
        }
    }

    /// A player that stops playing leaves the order of all players but the
    /// one that comes to the front as it was.
    pub proof fn lemma_demote_keeps_the_others(self, id: Seq<char>)
        requires
            self.wf(),
            self.demote_changes(id),
        ensures
            without(self.demote(id).order, self.demote(id).order[0]) == without(
                self.order,
                self.demote(id).order[0],
            ),
            self.demote(id).playing.contains(self.demote(id).order[0]),
    {
        let stopped = QueueModel { playing: self.playing.remove(id), ..self };
        let k = stopped.first_playing();
        assert(stopped.is_first_playing(k));
        let turned = self.demote(id).order;
        let front = self.order[k];
        self.lemma_demote_wf(id);
        assert(turned[0] == front);
        lemma_without_present(self.order, front, k);
        lemma_without_present(turned, front, 0);
        assert(turned.remove(0) =~= self.order.remove(k));
    }

    /// Only one place holds the first player that is playing.
    pub proof fn lemma_first_playing_is_unique(self, k: int)
        requires
            self.is_first_playing(k),
        ensures
            self.has_playing(),
            self.first_playing() == k,
    {
        let m = self.first_playing();
        assert(self.is_first_playing(m));
        if m < k {
            assert(!self.playing.contains(self.order[m]));
        }
        if k < m {
            assert(!self.playing.contains(self.order[k]));
        }
    }

    /// A queue stays well formed when a player stops playing.
    pub proof fn lemma_demote_wf(self, id: Seq<char>)
        requires
            self.wf(),
        ensures
            self.demote(id).wf(),
    {
        let stopped = QueueModel { playing: self.playing.remove(id), ..self };
        if stopped.has_playing() {
            let k = stopped.first_playing();
            assert(stopped.is_first_playing(k));
            lemma_rotated_holds_the_same(self.order, k);
        }
    }

    /// A queue stays well formed when it is rotated, either way.
    pub proof fn lemma_shift_wf(self)
        requires
            self.wf(),
        ensures
            self.shift().wf(),
            self.unshift().wf(),
    {
        if self.order.len() > 0 {
            lemma_rotated_holds_the_same(self.order, self.order.len() - 1);
            let turned = self.shift().order;
            assert forall|e: Seq<char>| self.order.contains(e) implies turned.contains(e) by {
                let m = choose|m: int| 0 <= m < self.order.len() && self.order[m] == e;
                let i = if m == 0 {
                    self.order.len() - 1
                } else {
                    m - 1
                };
                assert(turned[i] == e);
            }
        }
    }
}

/// A call that changes a queue.
pub enum QueueCall {
    /// A player arrives, playing or not.
    AddPlayer(Seq<char>, bool),
    /// A player leaves.
    RemovePlayer(Seq<char>),
    /// A player is marked as playing or as not playing.
    SetPlaying(Seq<char>, bool),
    /// A player starts to play.
    Promote(Seq<char>),
    /// A player stops playing.
    Demote(Seq<char>),
    /// The queue is rotated to the left.
    Shift,
    /// The queue is rotated to the right.
    Unshift,
}

impl QueueModel {
    /// The queue after the call `call`.
    pub open spec fn after(self, call: QueueCall) -> QueueModel {
        match call {
            QueueCall::AddPlayer(id, playing) => self.add_player(id, playing),
            QueueCall::RemovePlayer(id) => self.remove_player(id),
            QueueCall::SetPlaying(id, playing) => self.set_playing(id, playing),
            QueueCall::Promote(id) => self.promote(id),
            QueueCall::Demote(id) => self.demote(id),
            QueueCall::Shift => self.shift(),
            QueueCall::Unshift => self.unshift(),
        }
    }

    /// The queue after the calls `calls`, one after the other.
    pub open spec fn after_all(self, calls: Seq<QueueCall>) -> QueueModel
        decreases calls.len(),
    {
        if calls.len() == 0 {
            self
        } else {
            self.after_all(calls.drop_last()).after(calls.last())
        }
    }

    /// Whatever calls are made, in whatever order, a queue that was well
    /// formed stays so: no player stands in it twice, and every player that
    /// is playing stands in it. The policy stays too.
    pub proof fn lemma_calls_keep_wf(self, calls: Seq<QueueCall>)
        requires
            self.wf(),
        ensures
            self.after_all(calls).wf(),
            self.after_all(calls).policy == self.policy,
        decreases calls.len(),
    {
        if calls.len() > 0 {
            self.lemma_calls_keep_wf(calls.drop_last());
            let before = self.after_all(calls.drop_last());
            match calls.last() {
                QueueCall::AddPlayer(id, playing) => before.lemma_add_player_wf(id, playing),
                QueueCall::RemovePlayer(id) => before.lemma_remove_player_wf(id),
                QueueCall::SetPlaying(_, _) => {},
                QueueCall::Promote(id) => before.lemma_promote_wf(id),
                QueueCall::Demote(id) => before.lemma_demote_wf(id),
                QueueCall::Shift => before.lemma_shift_wf(),
                QueueCall::Unshift => before.lemma_shift_wf(),
            }
        }
    }

    /// A queue that has seen nothing but calls since it was made is well
    /// formed.
    pub proof fn lemma_calls_from_empty_keep_wf(policy: ArrivalPolicy, calls: Seq<QueueCall>)
        ensures
            QueueModel::empty(policy).after_all(calls).wf(),
    {
        QueueModel::empty(policy).lemma_calls_keep_wf(calls);
    }
}

/// Rotates the part of `list` from place 0 up to and including place `k` one
/// step to the right. A `k` beyond the end of the list changes nothing.
pub fn rotate_to_front<A>(list: &mut Vec<A>, k: usize)
    ensures
        k < old(list)@.len() ==> final(list)@ == rotated_to_front(old(list)@, k as int),
        k >= old(list)@.len() ==> final(list)@ == old(list)@,
{
    if k < list.len() && k > 0 {
        let item = list.remove(k);
        list.insert(0, item);
        assert(list@ =~= rotated_to_front(old(list)@, k as int));
    } else if k == 0 && list.len() > 0 {
        assert(list@ =~= rotated_to_front(old(list)@, 0));
    }
}

/// The players of a session in order of priority, with those that are
/// playing.
pub struct PlayersQueue {
    playing: StringHashSet,
    queue: Vec<String>,
    policy: ArrivalPolicy,
}

impl View for PlayersQueue {
    type V = QueueModel;

    closed spec fn view(&self) -> QueueModel {
        QueueModel { order: names_of(self.queue@), playing: self.playing@, policy: self.policy }
    }
}

impl Default for PlayersQueue {
    fn default() -> (queue: Self)
        ensures
            queue@ == QueueModel::empty(ArrivalPolicy::Front),
            queue.wf(),
    {
        PlayersQueue::new()
    }
}

impl PlayersQueue {
    /// No player stands in the queue twice, and every player that is playing
    /// stands in it.
    pub open spec fn wf(&self) -> bool {
        self@.wf()
    }

    /// A queue without any player, in which a head that is not playing gives
    /// way to every arrival.
    pub fn new() -> (queue: Self)
        ensures
            queue@ == QueueModel::empty(ArrivalPolicy::Front),
            queue.wf(),
    {
        PlayersQueue::with_policy(ArrivalPolicy::Front)
    }

    /// A queue without any player, under the policy `policy`.
    pub fn with_policy(policy: ArrivalPolicy) -> (queue: Self)
        ensures
            queue@ == QueueModel::empty(policy),
            queue.wf(),
    {
        let queue = PlayersQueue { playing: StringHashSet::new(), queue: Vec::new(), policy };
        assert(queue@.order =~= Seq::empty());
        queue
    }

    /// The policy of the queue.
    pub fn policy(&self) -> (policy: ArrivalPolicy)
        ensures
            policy == self@.policy,
    {
        self.policy
    }

    /// The active player: the head of the queue, or nothing if the queue is
    /// empty.
    pub fn get_active(&self) -> (active: Option<String>)
        ensures
            name_of(active) == self@.active(),
    {
        if self.queue.len() > 0 {
            Some(self.queue[0].clone())
        } else {
            None
        }
    }

    /// The players of the queue in order of priority, the active one first.
    pub fn order(&self) -> (order: Vec<String>)
        ensures
            names_of(order@) == self@.order,
    {
        clone_names(&self.queue)
    }

    /// The number of players in the queue.
    pub fn len(&self) -> (len: usize)
        ensures
            len == self@.order.len(),
    {
        self.queue.len()
    }

    /// Tells whether `name` stands in the queue.
    pub fn contains(&self, name: &str) -> (queued: bool)
        ensures
            queued == self@.order.contains(name@),
    {
        let key = name.to_owned();
        position_of(&self.queue, &key).is_some()
    }

    /// Tells whether `name` is marked as playing.
    pub fn is_playing(&self, name: &str) -> (playing: bool)
        ensures
            playing == self@.playing.contains(name@),
    {
        self.playing.contains(name)
    }

    /// Marks `player` as playing or as not playing. The order stays. A player
    /// that is not in the queue is not marked as playing.
    pub fn set_playing(&mut self, player: String, playing: bool)
        requires
            old(self).wf(),
        ensures
            final(self).wf(),
            final(self)@ == old(self)@.set_playing(player@, playing),
    {
        if !playing {
            self.playing.remove(player.as_str());
        } else if position_of(&self.queue, &player).is_some() {
            self.playing.insert(player);
        }
    }

    /// Puts `name` into the queue. Its place is the front if the queue is
    /// empty, if `name` is playing, or if `name` is the head already. It is
    /// the place right behind the head if the head is playing. Where neither
    /// the head nor `name` is playing, the policy of the queue decides. A
    /// player that was in the queue already leaves its old place. Then marks
    /// `name` as `playing` says.
    pub fn add_player(&mut self, name: String, playing: bool)
        requires
            old(self).wf(),
        ensures
            final(self).wf(),
            final(self)@ == old(self)@.add_player(name@, playing),
            final(self)@.order.contains(name@),
            playing ==> final(self)@.active() == Some(name@),
            !playing && old(self)@.order.len() > 0 && old(self)@.playing.contains(
                old(self)@.order[0],
            ) ==> final(self)@.active() == old(self)@.active(),
            !playing && old(self)@.order.len() == 0 ==> final(self)@.active() == Some(name@),
            !playing && old(self)@.order.len() > 0 && !old(self)@.playing.contains(
                old(self)@.order[0],
            ) && old(self)@.policy == ArrivalPolicy::Front ==> final(self)@.active() == Some(
                name@,
            ),
            !playing && old(self)@.order.len() > 0 && old(self)@.policy
                == ArrivalPolicy::BehindHead ==> final(self)@.active() == old(self)@.active(),
    {
        let to_front = if self.queue.len() == 0 || playing || self.queue[0] == name {
            true
        } else if self.playing.contains(self.queue[0].as_str()) {
            false
        } else {
            match self.policy {
                ArrivalPolicy::Front => true,
                ArrivalPolicy::BehindHead => false,
            }
        };
        proof {
            old(self)@.lemma_add_player_wf(name@, playing);
            old(self)@.lemma_arrival(name@, playing);
        }
        remove_name(&mut self.queue, &name);
        let ghost rest = self.queue@;
        let place: usize = if to_front {
            0
        } else {
            1
        };
        self.queue.insert(place, name.clone());
        assert(names_of(self.queue@) =~= names_of(rest).insert(place as int, name@));
        if playing {
            self.playing.insert(name);
        } else {
            self.playing.remove(name.as_str());
        }
    }

    /// Takes `name` out of the queue, wherever it stands, and out of the
    /// players that are playing. The others keep their order.
    pub fn remove_player(&mut self, name: &str)
        requires
            old(self).wf(),
        ensures
            final(self).wf(),
            final(self)@ == old(self)@.remove_player(name@),
            old(self)@.order.len() > 0 && old(self)@.order[0] == name@ ==> final(self)@.active()
                == (if old(self)@.order.len() > 1 {
                Some(old(self)@.order[1])
            } else {
                None
            }),
    {
        let key = name.to_owned();
        proof {
            old(self)@.lemma_remove_player_wf(name@);
            if old(self)@.order.len() > 0 && old(self)@.order[0] == name@ {
                old(self)@.lemma_remove_head();
            }
        }
        remove_name(&mut self.queue, &key);
        self.playing.remove(name);
    }

    /// Notes that `name` has started to play, and brings it to the head of
    /// the queue: the players that stood before it move back by one place
    /// each. Says whether `name` moved. A player that is not in the queue
    /// changes nothing.
    #[must_use]
    pub fn promote(&mut self, name: String) -> (changed: bool)
        requires
            old(self).wf(),
        ensures
            final(self).wf(),
            final(self)@ == old(self)@.promote(name@),
            changed == old(self)@.promote_changes(name@),
            old(self)@.order.contains(name@) ==> final(self)@.active() == Some(name@),
    {
        proof {
            old(self)@.lemma_promote_wf(name@);
        }
        match position_of(&self.queue, &name) {
            Some(k) => {
                proof {
                    old(self)@.lemma_place_is_unique(name@, k as int);
                }
                rotate_to_front(&mut self.queue, k);
                assert(names_of(self.queue@) =~= rotated_to_front(old(self)@.order, k as int));
                self.playing.insert(name);
                k > 0
            },
            None => false,
        }
    }

    /// Notes that `name` has stopped playing, and brings the first player of
    /// the queue that still plays to the head: the players that stood before
    /// it move back by one place each. Says whether there was such a player.
    /// Where no player is playing, the order stays.
    #[must_use]
    pub fn demote(&mut self, name: String) -> (changed: bool)
        requires
            old(self).wf(),
        ensures
            final(self).wf(),
            final(self)@ == old(self)@.demote(name@),
            changed == old(self)@.demote_changes(name@),
    {
        proof {
            old(self)@.lemma_demote_wf(name@);
        }
        self.playing.remove(name.as_str());
        let ghost stopped = self@;
        let mut i: usize = 0;
        while i < self.queue.len()
            invariant
                i <= self.queue.len(),
                self@ == stopped,
                stopped == (QueueModel { playing: old(self)@.playing.remove(name@), ..old(self)@ }),
                old(self)@.demote(name@).wf(),
                forall|j: int| 0 <= j < i ==> !stopped.playing.contains(#[trigger] stopped.order[j]),
            decreases self.queue.len() - i,
        {
            if self.playing.contains(self.queue[i].as_str()) {
                proof {
                    stopped.lemma_first_playing_is_unique(i as int);
                }
                rotate_to_front(&mut self.queue, i);
                assert(names_of(self.queue@) =~= rotated_to_front(stopped.order, i as int));
                return true;
            }
            i += 1;
        }
        assert(!stopped.has_playing()) by {
            if stopped.has_playing() {
                let k = stopped.first_playing();
                assert(stopped.is_first_playing(k));
                assert(!stopped.playing.contains(stopped.order[k]));
            }
        }
        false
    }

    /// Rotates the queue one step to the left: the head becomes the tail, and
    /// the player behind it the head. An empty queue stays empty.
    pub fn shift(&mut self)
        requires
            old(self).wf(),
        ensures
            final(self).wf(),
            final(self)@ == old(self)@.shift(),
    {
        proof {
            old(self)@.lemma_shift_wf();
        }
        if self.queue.len() > 0 {
            let head = self.queue.remove(0);
            self.queue.push(head);
            assert(names_of(self.queue@) =~= old(self)@.shift().order);
        }
    }

    /// Rotates the queue one step to the right: the tail becomes the head. An
    /// empty queue stays empty.
    pub fn unshift(&mut self)
        requires
            old(self).wf(),
        ensures
            final(self).wf(),
            final(self)@ == old(self)@.unshift(),
    {
        proof {
            old(self)@.lemma_shift_wf();
        }
        if self.queue.len() > 0 {
            let last = self.queue.len() - 1;
            rotate_to_front(&mut self.queue, last);
            assert(names_of(self.queue@) =~= old(self)@.unshift().order);
        }
    }
}

} // verus!
