use player_watcher::arbiter::{
    classify_presence, may_start, playing_from_probe, select_players, Arbiter, NameReply,
    Presence, StatusChange,
};
use player_watcher::notifier::{Notifier, Wake};
use player_watcher::players_queue::ArrivalPolicy;
use std::sync::{Arc, RwLock};

const VLC: &str = "org.mpris.MediaPlayer2.vlc";
const MPV: &str = "org.mpris.MediaPlayer2.mpv";
const FOX: &str = "org.mpris.MediaPlayer2.firefox";

fn names(list: &[&str]) -> Vec<String> {
    list.iter().map(|s| s.to_string()).collect()
}

fn text(s: &str) -> Option<String> {
    Some(s.to_string())
}

#[test]
fn presence_of_a_player_that_appears() {
    assert_eq!(classify_presence(VLC, "", ":1.5"), Presence::Appeared);
}

#[test]
fn presence_of_a_player_that_disappears() {
    assert_eq!(classify_presence(VLC, ":1.5", ""), Presence::Disappeared);
}

#[test]
fn presence_of_other_names_is_ignored() {
    assert_eq!(classify_presence("org.gnome.Shell", "", ":1.5"), Presence::Ignored);
    assert_eq!(classify_presence("org.gnome.Shell", ":1.5", ""), Presence::Ignored);
    assert_eq!(classify_presence(":1.5", "", ":1.5"), Presence::Ignored);
    assert_eq!(classify_presence("", "", ""), Presence::Ignored);
}

#[test]
fn presence_that_is_no_arrival_and_no_departure_is_ignored() {
    assert_eq!(classify_presence(VLC, "", ""), Presence::Ignored);
    assert_eq!(classify_presence(VLC, ":1.5", ":1.6"), Presence::Ignored);
}

#[test]
fn select_players_keeps_players_in_order() {
    let all = names(&["org.freedesktop.DBus", MPV, ":1.7", VLC, "org.mpris.MediaPlayer2", FOX]);
    assert_eq!(select_players(&all), names(&[MPV, VLC, FOX]));
    assert_eq!(select_players(&Vec::new()), Vec::<String>::new());
    assert_eq!(select_players(&names(&[":1.1", ":1.2"])), Vec::<String>::new());
    assert_eq!(select_players(&names(&[VLC, VLC])), names(&[VLC, VLC]));
}

#[test]
fn probe_tells_playing_only_by_the_playing_status() {
    assert!(playing_from_probe(&text("Playing")));
    assert!(!playing_from_probe(&text("Paused")));
    assert!(!playing_from_probe(&text("Stopped")));
    assert!(!playing_from_probe(&text("playing")));
    assert!(!playing_from_probe(&text("Playing ")));
    assert!(!playing_from_probe(&text("")));
}

#[test]
fn failed_probe_counts_as_not_playing() {
    assert!(!playing_from_probe(&None));
    let mut arbiter = Arbiter::new();
    arbiter.appeared(VLC.to_string(), names(&[":1.5"]), None);
    assert_eq!(arbiter.queue.get_active(), text(VLC));
    assert!(!arbiter.queue.is_playing(VLC));
    assert_eq!(arbiter.players.find_by_channel(":1.5"), text(VLC));
}

#[test]
fn new_arbiter_knows_nothing() {
    let arbiter = Arbiter::new();
    assert_eq!(arbiter.queue.get_active(), None);
    assert_eq!(arbiter.queue.policy(), ArrivalPolicy::Front);
    assert_eq!(arbiter.active_player(), (String::new(), Vec::new()));
    let arbiter = Arbiter::default();
    assert_eq!(arbiter.queue.len(), 0);
    let arbiter = Arbiter::with_policy(ArrivalPolicy::BehindHead);
    assert_eq!(arbiter.queue.policy(), ArrivalPolicy::BehindHead);
}

#[test]
fn appeared_registers_and_queues() {
    let mut arbiter = Arbiter::new();
    assert!(arbiter.appeared(VLC.to_string(), names(&[":1.5"]), text("Playing")));
    assert!(arbiter.appeared(MPV.to_string(), names(&[":1.6", ":1.7"]), text("Paused")));
    assert_eq!(arbiter.queue.order(), names(&[VLC, MPV]));
    assert!(arbiter.queue.is_playing(VLC));
    assert!(!arbiter.queue.is_playing(MPV));
    assert_eq!(arbiter.players.find_by_channel(":1.5"), text(VLC));
    assert_eq!(arbiter.players.find_by_channel(":1.6"), text(MPV));
    assert_eq!(arbiter.players.find_by_channel(":1.7"), text(MPV));
    assert_eq!(arbiter.active_player(), (VLC.to_string(), names(&[":1.5"])));
}

#[test]
fn appeared_twice_does_not_queue_twice() {
    let mut arbiter = Arbiter::new();
    assert!(arbiter.appeared(VLC.to_string(), names(&[":1.5"]), text("Playing")));
    assert!(!arbiter.appeared(VLC.to_string(), names(&[":1.5"]), text("Playing")));
    assert_eq!(arbiter.queue.order(), names(&[VLC]));
    assert_eq!(arbiter.players.get_channels(VLC).unwrap(), &names(&[":1.5"]));
}

#[test]
fn disappeared_removes_from_both() {
    let mut arbiter = Arbiter::new();
    arbiter.appeared(VLC.to_string(), names(&[":1.5"]), text("Playing"));
    arbiter.appeared(MPV.to_string(), names(&[":1.6"]), text("Paused"));
    arbiter.disappeared(VLC, ":1.5");
    assert_eq!(arbiter.queue.order(), names(&[MPV]));
    assert_eq!(arbiter.queue.get_active(), text(MPV));
    assert_eq!(arbiter.players.find_by_channel(":1.5"), None);
    assert!(arbiter.players.get_channels(VLC).is_none());
    assert!(!arbiter.queue.is_playing(VLC));
}

#[test]
fn disappeared_unknown_is_no_op() {
    let mut arbiter = Arbiter::new();
    arbiter.appeared(VLC.to_string(), names(&[":1.5"]), text("Playing"));
    arbiter.disappeared(MPV, ":1.6");
    arbiter.disappeared(MPV, ":1.5");
    assert_eq!(arbiter.queue.order(), names(&[VLC]));
    assert_eq!(arbiter.players.find_by_channel(":1.5"), text(VLC));
}

#[test]
fn status_playing_promotes() {
    let mut arbiter = Arbiter::new();
    arbiter.appeared(VLC.to_string(), names(&[":1.5"]), text("Playing"));
    arbiter.appeared(MPV.to_string(), names(&[":1.6"]), text("Paused"));
    assert_eq!(arbiter.queue.order(), names(&[VLC, MPV]));
    assert_eq!(
        arbiter.status_changed(text(":1.6"), text("Playing")),
        StatusChange::Applied { playing: true, queued: true }
    );
    assert_eq!(arbiter.queue.order(), names(&[MPV, VLC]));
    assert!(arbiter.queue.is_playing(MPV));
    assert!(arbiter.queue.is_playing(VLC));
}

#[test]
fn status_not_playing_demotes() {
    let mut arbiter = Arbiter::new();
    arbiter.appeared(VLC.to_string(), names(&[":1.5"]), text("Playing"));
    arbiter.appeared(MPV.to_string(), names(&[":1.6"]), text("Playing"));
    assert_eq!(arbiter.queue.order(), names(&[MPV, VLC]));
    assert_eq!(
        arbiter.status_changed(text(":1.6"), text("Paused")),
        StatusChange::Applied { playing: false, queued: true }
    );
    assert_eq!(arbiter.queue.order(), names(&[VLC, MPV]));
    assert!(!arbiter.queue.is_playing(MPV));
    assert_eq!(
        arbiter.status_changed(text(":1.5"), text("Stopped")),
        StatusChange::Applied { playing: false, queued: true }
    );
    assert_eq!(arbiter.queue.order(), names(&[VLC, MPV]));
    assert!(!arbiter.queue.is_playing(VLC));
}

#[test]
fn status_from_unknown_channel_is_ignored() {
    let mut arbiter = Arbiter::new();
    arbiter.appeared(VLC.to_string(), names(&[":1.5"]), text("Paused"));
    arbiter.appeared(MPV.to_string(), names(&[":1.6"]), text("Playing"));
    arbiter.queue.shift();
    assert_eq!(arbiter.queue.order(), names(&[VLC, MPV]));
    assert_eq!(arbiter.status_changed(text(":1.9"), text("Paused")), StatusChange::Ignored);
    assert_eq!(arbiter.status_changed(text(":1.9"), text("Playing")), StatusChange::Ignored);
    assert_eq!(arbiter.status_changed(text(VLC), text("Playing")), StatusChange::Ignored);
    assert_eq!(arbiter.queue.order(), names(&[VLC, MPV]));
    assert!(!arbiter.queue.is_playing(VLC));
    assert!(arbiter.queue.is_playing(MPV));
}

#[test]
fn status_without_sender_or_status_is_ignored() {
    let mut arbiter = Arbiter::new();
    arbiter.appeared(VLC.to_string(), names(&[":1.5"]), text("Paused"));
    arbiter.appeared(MPV.to_string(), names(&[":1.6"]), text("Playing"));
    arbiter.queue.shift();
    assert_eq!(arbiter.status_changed(None, text("Playing")), StatusChange::Ignored);
    assert_eq!(arbiter.status_changed(text(":1.5"), None), StatusChange::Ignored);
    assert_eq!(arbiter.status_changed(None, None), StatusChange::Ignored);
    assert_eq!(arbiter.queue.order(), names(&[VLC, MPV]));
    assert!(!arbiter.queue.is_playing(VLC));
}

#[test]
fn status_of_registered_but_unqueued_player_changes_nothing() {
    let mut arbiter = Arbiter::new();
    arbiter.appeared(VLC.to_string(), names(&[":1.5", ":1.6"]), text("Paused"));
    arbiter.disappeared(VLC, ":1.5");
    // the registry still holds the player by its second channel
    assert_eq!(arbiter.players.find_by_channel(":1.6"), text(VLC));
    assert_eq!(arbiter.queue.len(), 0);
    assert_eq!(
        arbiter.status_changed(text(":1.6"), text("Playing")),
        StatusChange::Applied { playing: true, queued: false }
    );
    assert_eq!(arbiter.queue.len(), 0);
    assert!(!arbiter.queue.is_playing(VLC));
    assert_eq!(
        arbiter.status_changed(text(":1.6"), text("Paused")),
        StatusChange::Applied { playing: false, queued: false }
    );
    assert_eq!(arbiter.queue.len(), 0);
}

#[test]
fn commands_rotate_the_queue() {
    let mut arbiter = Arbiter::new();
    arbiter.appeared(FOX.to_string(), names(&[":1.7"]), None);
    arbiter.appeared(MPV.to_string(), names(&[":1.6"]), None);
    arbiter.appeared(VLC.to_string(), names(&[":1.5"]), None);
    assert_eq!(arbiter.queue.order(), names(&[VLC, MPV, FOX]));
    assert!(arbiter.command("Shift"));
    assert_eq!(arbiter.queue.order(), names(&[MPV, FOX, VLC]));
    assert!(arbiter.command("Unshift"));
    assert!(arbiter.command("Unshift"));
    assert_eq!(arbiter.queue.order(), names(&[FOX, VLC, MPV]));
}

#[test]
fn unknown_commands_are_ignored() {
    let mut arbiter = Arbiter::new();
    arbiter.appeared(MPV.to_string(), names(&[":1.6"]), None);
    arbiter.appeared(VLC.to_string(), names(&[":1.5"]), None);
    assert!(!arbiter.command("shift"));
    assert!(!arbiter.command(""));
    assert!(!arbiter.command("Next"));
    assert!(!arbiter.command("ShiftUnshift"));
    assert_eq!(arbiter.queue.order(), names(&[VLC, MPV]));
}

#[test]
fn commands_on_empty_queue() {
    let mut arbiter = Arbiter::new();
    assert!(arbiter.command("Shift"));
    assert!(arbiter.command("Unshift"));
    assert_eq!(arbiter.queue.len(), 0);
}

#[test]
fn property_answers_only_for_active_player() {
    let mut arbiter = Arbiter::new();
    arbiter.appeared(VLC.to_string(), names(&[":1.5", ":1.8"]), text("Playing"));
    let reply = arbiter.property("ActivePlayer");
    let (name, mut channels) = reply.unwrap();
    channels.sort();
    assert_eq!(name, VLC);
    assert_eq!(channels, names(&[":1.5", ":1.8"]));
    assert_eq!(arbiter.property("activeplayer"), None);
    assert_eq!(arbiter.property(""), None);
    assert_eq!(arbiter.property("PlaybackStatus"), None);
}

#[test]
fn property_without_active_player_is_empty() {
    let arbiter = Arbiter::new();
    assert_eq!(arbiter.property("ActivePlayer"), Some((String::new(), Vec::new())));
}

#[test]
fn active_player_without_channels_in_registry() {
    let mut arbiter = Arbiter::new();
    arbiter.queue.add_player(VLC.to_string(), true);
    assert_eq!(arbiter.active_player(), (VLC.to_string(), Vec::new()));
}

#[test]
fn events_and_notifier_together() {
    let mut arbiter = Arbiter::new();
    let mut notifier = Notifier::new();
    let mut out: Vec<Option<String>> = Vec::new();
    let mut wake = |arbiter: &Arbiter, out: &mut Vec<Option<String>>| {
        if let Wake::Announce(active) = notifier.wake(&arbiter.queue) {
            out.push(active);
        }
    };

    arbiter.appeared(VLC.to_string(), names(&[":1.5"]), text("Paused"));
    wake(&arbiter, &mut out);
    arbiter.appeared(MPV.to_string(), names(&[":1.6"]), text("Playing"));
    wake(&arbiter, &mut out);
    arbiter.status_changed(text(":1.6"), text("Playing"));
    wake(&arbiter, &mut out);
    arbiter.status_changed(text(":1.5"), text("Playing"));
    arbiter.status_changed(text(":1.5"), text("Paused"));
    wake(&arbiter, &mut out);
    arbiter.disappeared(MPV, ":1.6");
    wake(&arbiter, &mut out);
    wake(&arbiter, &mut out);
    arbiter.disappeared(VLC, ":1.5");
    wake(&arbiter, &mut out);

    assert_eq!(out, vec![text(VLC), text(MPV), text(VLC), None]);
}

#[test]
fn arrival_policy_reaches_the_queue() {
    let mut arbiter = Arbiter::with_policy(ArrivalPolicy::BehindHead);
    arbiter.appeared(VLC.to_string(), names(&[":1.5"]), text("Paused"));
    arbiter.appeared(MPV.to_string(), names(&[":1.6"]), text("Paused"));
    assert_eq!(arbiter.queue.order(), names(&[VLC, MPV]));
    let mut arbiter = Arbiter::new();
    arbiter.appeared(VLC.to_string(), names(&[":1.5"]), text("Paused"));
    arbiter.appeared(MPV.to_string(), names(&[":1.6"]), text("Paused"));
    assert_eq!(arbiter.queue.order(), names(&[MPV, VLC]));
}

#[test]
fn shared_state_behind_one_lock() {
    let state = Arc::new(RwLock::new(Arbiter::new()));
    let mut notifier = Notifier::default();
    let mut out: Vec<Option<String>> = Vec::new();

    let all = names(&["org.freedesktop.DBus", VLC]);
    for name in select_players(&all) {
        state.write().unwrap().appeared(name, names(&[":1.5"]), None);
    }
    if let Wake::Announce(active) = notifier.wake(&state.read().unwrap().queue) {
        out.push(active);
    }
    let outcome = state.write().unwrap().status_changed(text(":1.5"), text("Playing"));
    assert_eq!(outcome, StatusChange::Applied { playing: true, queued: true });
    if let Wake::Announce(active) = notifier.wake(&state.read().unwrap().queue) {
        out.push(active);
    }
    let reply = state.read().unwrap().property("ActivePlayer");
    assert_eq!(reply, Some((VLC.to_string(), names(&[":1.5"]))));
    assert!(state.write().unwrap().command("Shift"));
    state.write().unwrap().disappeared(VLC, ":1.5");
    if let Wake::Announce(active) = notifier.wake(&state.read().unwrap().queue) {
        out.push(active);
    }
    assert_eq!(out, vec![text(VLC), None]);
}

#[test]
fn only_the_new_owner_of_the_name_may_start() {
    assert!(may_start(NameReply::PrimaryOwner));
    assert!(!may_start(NameReply::InQueue));
    assert!(!may_start(NameReply::Exists));
    assert!(!may_start(NameReply::AlreadyOwner));
}

#[test]
fn no_channels_given_out_when_no_player_is_active() {
    let mut arbiter = Arbiter::new();
    arbiter.appeared(String::new(), names(&[":1.5", ":1.9"]), None);
    assert_eq!(arbiter.property("ActivePlayer"), Some((String::new(), names(&[":1.5", ":1.9"]))));
    arbiter.disappeared("", ":1.5");
    // the registry still holds the empty name, but no player is active
    assert_eq!(arbiter.players.find_by_channel(":1.9"), Some(String::new()));
    assert_eq!(arbiter.queue.get_active(), None);
    assert_eq!(arbiter.active_player(), (String::new(), Vec::new()));
    assert_eq!(arbiter.property("ActivePlayer"), Some((String::new(), Vec::new())));
}

#[test]
fn player_of_the_empty_name_has_its_channels_while_it_is_active() {
    let mut arbiter = Arbiter::new();
    arbiter.appeared(String::new(), names(&[":1.5"]), None);
    assert_eq!(arbiter.queue.get_active(), Some(String::new()));
    assert_eq!(arbiter.active_player(), (String::new(), names(&[":1.5"])));
}

#[test]
fn appeared_without_channels_changes_nothing() {
    let mut arbiter = Arbiter::new();
    assert!(!arbiter.appeared(VLC.to_string(), Vec::new(), text("Playing")));
    assert_eq!(arbiter.queue.len(), 0);
    assert_eq!(arbiter.queue.get_active(), None);
    assert!(!arbiter.queue.is_playing(VLC));
    assert!(arbiter.players.get_channels(VLC).is_none());

    arbiter.appeared(MPV.to_string(), names(&[":1.6"]), text("Paused"));
    arbiter.appeared(VLC.to_string(), names(&[":1.5"]), text("Paused"));
    assert_eq!(arbiter.queue.order(), names(&[VLC, MPV]));
    // a player that is known comes again without a channel: nothing moves
    assert!(!arbiter.appeared(MPV.to_string(), Vec::new(), text("Playing")));
    assert_eq!(arbiter.queue.order(), names(&[VLC, MPV]));
    assert!(!arbiter.queue.is_playing(MPV));
    assert_eq!(arbiter.players.get_channels(MPV).unwrap(), &names(&[":1.6"]));
}

#[test]
fn status_of_unqueued_player_is_told_apart() {
    let mut arbiter = Arbiter::new();
    arbiter.appeared(VLC.to_string(), names(&[":1.5"]), text("Playing"));
    arbiter.appeared(MPV.to_string(), names(&[":1.6"]), text("Paused"));
    arbiter.queue.remove_player(MPV);
    assert_eq!(
        arbiter.status_changed(text(":1.6"), text("Playing")),
        StatusChange::Applied { playing: true, queued: false }
    );
    assert_eq!(arbiter.queue.order(), names(&[VLC]));
    assert!(!arbiter.queue.is_playing(MPV));
    assert_eq!(
        arbiter.status_changed(text(":1.5"), text("Playing")),
        StatusChange::Applied { playing: true, queued: true }
    );
}
