//! The change notifier: it tells the listeners of the watcher which player is
//! active, once for each change.
//!
//! The notifier remembers the active player that it announced last. Each time
//! it is woken it looks at the head of the queue, and announces it only if it
//! differs from what it announced last. Many changes of the queue between two
//! wake-ups, or many wake-ups after one change, make one announcement.

use crate::names::name_of;
use crate::players_queue::PlayersQueue;
use vstd::prelude::*;

verus! {

/// What a wake-up announces, where `last` was announced last and `head` is
/// the active player now: the active player if it has changed, else nothing.
pub open spec fn announced(last: Option<Seq<char>>, head: Option<Seq<char>>) -> Option<
    Option<Seq<char>>,
> {
    if head == last {
        None
    } else {
        Some(head)
    }
}

/// What a series of wake-ups announces, one after the other, where `last` was
/// announced before the first of them and `heads` holds the active player at
/// each of them.
pub open spec fn announcements(last: Option<Seq<char>>, heads: Seq<Option<Seq<char>>>) -> Seq<
    Option<Seq<char>>,
>
    decreases heads.len(),
{
    if heads.len() == 0 {
        Seq::empty()
    } else {
        let rest = announcements(heads.first(), heads.drop_first());
        match announced(last, heads.first()) {
            Some(head) => seq![head] + rest,
            None => rest,
        }
    }
}

/// Wake-ups that all find the same active player announce it once if it
/// differs from what was announced last, and not at all if it does not.
pub proof fn lemma_one_announcement_for_one_head(
    last: Option<Seq<char>>,
    heads: Seq<Option<Seq<char>>>,
    head: Option<Seq<char>>,
)
    requires
        heads.len() > 0,
        forall|i: int| 0 <= i < heads.len() ==> heads[i] == head,
    ensures
        head != last ==> announcements(last, heads) == seq![head],
        head == last ==> announcements(last, heads) == Seq::<Option<Seq<char>>>::empty(),
    decreases heads.len(),
{
    let rest = heads.drop_first();
    assert(heads.first() == head);
    if rest.len() > 0 {
        lemma_one_announcement_for_one_head(head, rest, head);
    }
    assert(announcements(head, rest) == Seq::<Option<Seq<char>>>::empty());
    if head != last {
        assert(seq![head] + Seq::<Option<Seq<char>>>::empty() =~= seq![head]);
    }
}

/// Wake-ups that each find another active player than the one before, the
/// first of them another than what was announced last, announce each of them:
/// as many announcements as wake-ups, in their order.
pub proof fn lemma_one_announcement_for_each_change(
    last: Option<Seq<char>>,
    heads: Seq<Option<Seq<char>>>,
)
    requires
        heads.len() > 0 ==> heads[0] != last,
        forall|i: int| 0 < i < heads.len() ==> #[trigger] heads[i] != heads[i - 1],
    ensures
        announcements(last, heads) == heads,
    decreases heads.len(),
{
    if heads.len() > 0 {
        let rest = heads.drop_first();
        assert forall|i: int| 0 < i < rest.len() implies #[trigger] rest[i] != rest[i - 1] by {
            assert(rest[i] == heads[i + 1]);
            assert(rest[i - 1] == heads[i]);
        }
        if rest.len() > 0 {
            assert(rest[0] == heads[1]);
        }
        lemma_one_announcement_for_each_change(heads.first(), rest);
        assert(seq![heads.first()] + rest =~= heads);
    } else {
        assert(announcements(last, heads) =~= heads);
    }
}

/// No series of wake-ups announces more often than it wakes, nor the same
/// active player twice in a row, nor first what was announced last.
pub proof fn lemma_announcements_differ(last: Option<Seq<char>>, heads: Seq<Option<Seq<char>>>)
    ensures
        announcements(last, heads).len() <= heads.len(),
        announcements(last, heads).len() > 0 ==> announcements(last, heads)[0] != last,
        announcements(last, heads).len() > 0 ==> announcements(last, heads).last() == heads.last(),
        announcements(last, heads).len() == 0 && heads.len() > 0 ==> heads.last() == last,
        forall|i: int|
            0 < i < announcements(last, heads).len() ==> #[trigger] announcements(last, heads)[i]
                != announcements(last, heads)[i - 1],
    decreases heads.len(),
{
    if heads.len() > 0 {
        let rest = heads.drop_first();
        let later = announcements(heads.first(), rest);
        lemma_announcements_differ(heads.first(), rest);
        if rest.len() > 0 {
            assert(rest.last() == heads.last());
        }
        let all = announcements(last, heads);
        match announced(last, heads.first()) {
            Some(head) => {
                assert(all =~= seq![head] + later);
                assert forall|i: int| 0 < i < all.len() implies #[trigger] all[i] != all[i - 1] by {
                    assert(all[i] == later[i - 1]);
                    if i > 1 {
                        assert(all[i - 1] == later[i - 2]);
                    }
                }
                if later.len() > 0 {
                    assert(all.last() == later.last());
                }
            },
            None => {},
        }
    }
}

/// What a wake-up of the notifier comes to.
pub enum Wake {
    /// The active player is the one that was announced last: there is
    /// nothing to announce.
    Silent,
    /// The active player has changed: it is to be announced. `None` says
    /// that no player is active.
    Announce(Option<String>),
}

impl View for Wake {
    type V = Option<Option<Seq<char>>>;

    open spec fn view(&self) -> Option<Option<Seq<char>>> {
        match *self {
            Wake::Silent => None,
            Wake::Announce(active) => Some(name_of(active)),
        }
    }
}

/// The notifier, with the active player that it announced last.
pub struct Notifier {
    last: Option<String>,
}

impl View for Notifier {
    type V = Option<Seq<char>>;

    /// The active player that was announced last.
    closed spec fn view(&self) -> Option<Seq<char>> {
        name_of(self.last)
    }
}

impl Default for Notifier {
    fn default() -> (notifier: Self)
        ensures
            notifier@.is_none(),
    {
        Notifier::new()
    }
}

/// Tells whether two optional names hold the same, by value.
pub fn same_active(a: &Option<String>, b: &Option<String>) -> (same: bool)
    ensures
        same == (name_of(*a) == name_of(*b)),
{
    match (a, b) {
        (Some(x), Some(y)) => *x == *y,
        (None, None) => true,
        _ => false,
    }
}

impl Notifier {
    /// A notifier that has announced nothing yet: to it, no player is active.
    pub fn new() -> (notifier: Self)
        ensures
            notifier@.is_none(),
    {
        Notifier { last: None }
    }

    /// The active player that was announced last.
    pub fn last_announced(&self) -> (last: Option<String>)
        ensures
            name_of(last) == self@,
    {
        match &self.last {
            Some(name) => Some(name.clone()),
            None => None,
        }
    }

    /// Takes note of the active player `head`, and says what is to be
    /// announced: `head` if it differs from what was announced last, else
    /// nothing.
    pub fn observe(&mut self, head: Option<String>) -> (wake: Wake)
        ensures
            wake@ == announced(old(self)@, name_of(head)),
            final(self)@ == name_of(head),
    {
        if same_active(&self.last, &head) {
            Wake::Silent
        } else {
            let announce = match &head {
                Some(name) => Some(name.clone()),
                None => None,
            };
            self.last = head;
            Wake::Announce(announce)
        }
    }

    /// Wakes the notifier: it looks at the head of `queue`, and says what is
    /// to be announced.
    pub fn wake(&mut self, queue: &PlayersQueue) -> (wake: Wake)
        ensures
            wake@ == announced(old(self)@, queue@.active()),
            final(self)@ == queue@.active(),
    {
        self.observe(queue.get_active())
    }
}

} // verus!
