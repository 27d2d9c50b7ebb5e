//! Arbitration of the active media player of a desktop session.
//!
//! Several media players may be present on the session bus at once. They
//! start and stop playing when they like, and leave without notice. This
//! crate keeps track of them and says, at any time, which one of them is the
//! active player.
//!
//! - [`players`] holds the registry: the players that are present, and the
//!   channels through which each of them is reached.
//! - [`players_queue`] holds the queue that orders the players. Its head is
//!   the active player.
//! - [`arbiter`] says what each event of the bus does to the registry and to
//!   the queue.
//! - [`notifier`] says when a change of the active player is to be announced.
//! - [`follow`] holds what a follower of the active player shows.
//! - [`names`] holds what the others share: how names are compared and how
//!   lists of names are handled.
//! - [`constants`] holds the names that are used on the bus.
//!
//! Nothing here talks to the bus. A program that does so hands the events
//! that it receives to this crate, and sends out what this crate tells it to
//! announce.

pub mod arbiter;
pub mod constants;
pub mod follow;
pub mod names;
pub mod notifier;
pub mod players;
pub mod players_queue;
