//! Names that the watcher and the players use on the bus.

use vstd::prelude::*;

verus! {

/// Bus name that the running watcher owns.
pub const WELL_KNOWN_NAME: &'static str = "org.mpris.player_watcher";

/// Object path of the watcher.
pub const WELL_KNOWN_PATH: &'static str = "/org/mpris/player_watcher";

/// Property of the watcher that holds the active player.
pub const ACTIVE_PLAYER_PROPERTY: &'static str = "ActivePlayer";

/// Command that hands the head of the queue to the next player.
pub const SHIFT_METHOD: &'static str = "Shift";

/// Command that hands the head of the queue back to the previous player.
pub const UNSHIFT_METHOD: &'static str = "Unshift";

/// Bus name of the bus itself.
pub const DBUS: &'static str = "org.freedesktop.DBus";

/// Every media player owns a bus name that starts with this prefix.
pub const MPRIS_PREFIX: &'static str = "org.mpris.MediaPlayer2.";

/// Object path of a media player.
pub const MPRIS_PATH: &'static str = "/org/mpris/MediaPlayer2";

/// Interface of a media player that holds its playback controls and status.
pub const MPRIS_PLAYER_ITF: &'static str = "org.mpris.MediaPlayer2.Player";

/// Interface through which properties are read and announced.
pub const PROPERTIES: &'static str = "org.freedesktop.DBus.Properties";

/// Signal that announces changed properties.
pub const PROPERTIES_CHANGED: &'static str = "PropertiesChanged";

/// Property of a media player that holds its playback status.
pub const PLAYBACK_STATUS_PROPERTY: &'static str = "PlaybackStatus";

/// Value of the playback status of a player that is playing.
pub const PLAYING_STATUS: &'static str = "Playing";

} // verus!
