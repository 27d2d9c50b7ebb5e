use player_watcher::players::{is_player, Players};

fn names(list: &[&str]) -> Vec<String> {
    list.iter().map(|s| s.to_string()).collect()
}

fn sorted(list: &Vec<String>) -> Vec<String> {
    let mut copy = list.clone();
    copy.sort();
    copy
}

#[test]
fn is_player_accepts_media_player_names() {
    assert!(is_player("org.mpris.MediaPlayer2.vlc"));
    assert!(is_player("org.mpris.MediaPlayer2.firefox.instance_1_42"));
    assert!(is_player("org.mpris.MediaPlayer2."));
}

#[test]
fn is_player_rejects_other_names() {
    assert!(!is_player(""));
    assert!(!is_player("org.mpris.MediaPlayer2"));
    assert!(!is_player("org.freedesktop.DBus"));
    assert!(!is_player(":1.42"));
    assert!(!is_player("org.mpris.player_watcher"));
    assert!(!is_player("xorg.mpris.MediaPlayer2.vlc"));
    assert!(!is_player("org.mpris.mediaplayer2.vlc"));
    assert!(!is_player("org.mpris.MediaPlayer3.vlc___"));
}

#[test]
fn is_player_counts_characters_not_bytes() {
    assert!(is_player("org.mpris.MediaPlayer2.\u{e9}t\u{e9}"));
    assert!(!is_player("\u{f6}rg.mpris.MediaPlayer2.vlc"));
    assert!(!is_player("\u{e9}\u{e9}\u{e9}\u{e9}\u{e9}\u{e9}\u{e9}\u{e9}\u{e9}\u{e9}\u{e9}\u{e9}"));
}

#[test]
fn new_registry_knows_nothing() {
    let registry = Players::new();
    assert_eq!(registry.find_by_channel(":1.1"), None);
    assert!(registry.get_channels("p").is_none());
    let registry = Players::default();
    assert_eq!(registry.find_by_channel(":1.1"), None);
}

#[test]
fn add_says_whether_player_is_new() {
    let mut registry = Players::new();
    assert!(registry.add("p".to_string(), names(&[":1.1"])));
    assert!(!registry.add("p".to_string(), names(&[":1.2"])));
    assert!(registry.add("q".to_string(), names(&[":1.3"])));
}

#[test]
fn add_collects_channels() {
    let mut registry = Players::new();
    registry.add("p".to_string(), names(&[":1.1", ":1.2"]));
    registry.add("p".to_string(), names(&[":1.3"]));
    let channels = registry.get_channels("p").unwrap();
    assert_eq!(sorted(channels), names(&[":1.1", ":1.2", ":1.3"]));
    assert_eq!(registry.find_by_channel(":1.1"), Some("p".to_string()));
    assert_eq!(registry.find_by_channel(":1.2"), Some("p".to_string()));
    assert_eq!(registry.find_by_channel(":1.3"), Some("p".to_string()));
    assert_eq!(registry.find_by_channel(":1.4"), None);
}

#[test]
fn add_holds_each_channel_once() {
    let mut registry = Players::new();
    registry.add("p".to_string(), names(&[":1.1", ":1.1"]));
    registry.add("p".to_string(), names(&[":1.1"]));
    assert_eq!(registry.get_channels("p").unwrap(), &names(&[":1.1"]));
}

#[test]
fn add_without_channels_creates_nothing() {
    let mut registry = Players::new();
    assert!(!registry.add("p".to_string(), Vec::new()));
    assert!(registry.get_channels("p").is_none());
    registry.add("p".to_string(), names(&[":1.1"]));
    assert!(!registry.add("p".to_string(), Vec::new()));
    assert_eq!(registry.get_channels("p").unwrap(), &names(&[":1.1"]));
}

#[test]
fn add_channel_says_whether_player_is_new() {
    let mut registry = Players::new();
    assert!(registry.add_channel("p".to_string(), ":1.1".to_string()));
    assert!(!registry.add_channel("p".to_string(), ":1.1".to_string()));
    assert!(!registry.add_channel("p".to_string(), ":1.2".to_string()));
    assert_eq!(sorted(registry.get_channels("p").unwrap()), names(&[":1.1", ":1.2"]));
}

#[test]
fn channel_stands_for_one_player_at_a_time() {
    let mut registry = Players::new();
    registry.add("p".to_string(), names(&[":1.1", ":1.2"]));
    assert!(registry.add_channel("q".to_string(), ":1.1".to_string()));
    assert_eq!(registry.find_by_channel(":1.1"), Some("q".to_string()));
    assert_eq!(registry.get_channels("p").unwrap(), &names(&[":1.2"]));
    assert_eq!(registry.get_channels("q").unwrap(), &names(&[":1.1"]));
    // the last channel of a player goes over to another: the player is gone
    assert!(!registry.add_channel("q".to_string(), ":1.2".to_string()));
    assert!(registry.get_channels("p").is_none());
    assert_eq!(registry.find_by_channel(":1.2"), Some("q".to_string()));
    assert_eq!(sorted(registry.get_channels("q").unwrap()), names(&[":1.1", ":1.2"]));
}

#[test]
fn remove_channel_drops_player_with_last_channel() {
    let mut registry = Players::new();
    registry.add("p".to_string(), names(&[":1.1", ":1.2"]));
    registry.remove_channel("p", ":1.1");
    assert_eq!(registry.find_by_channel(":1.1"), None);
    assert_eq!(registry.get_channels("p").unwrap(), &names(&[":1.2"]));
    registry.remove_channel("p", ":1.2");
    assert_eq!(registry.find_by_channel(":1.2"), None);
    assert!(registry.get_channels("p").is_none());
    // the player can come back, and is new again
    assert!(registry.add("p".to_string(), names(&[":1.9"])));
}

#[test]
fn remove_channel_of_unknown_is_no_op() {
    let mut registry = Players::new();
    registry.add("p".to_string(), names(&[":1.1"]));
    registry.add("q".to_string(), names(&[":1.2"]));
    registry.remove_channel("p", ":1.7");
    registry.remove_channel("z", ":1.1");
    registry.remove_channel("q", ":1.1");
    registry.remove_channel("", "");
    assert_eq!(registry.find_by_channel(":1.1"), Some("p".to_string()));
    assert_eq!(registry.find_by_channel(":1.2"), Some("q".to_string()));
    assert_eq!(registry.get_channels("p").unwrap(), &names(&[":1.1"]));
    assert_eq!(registry.get_channels("q").unwrap(), &names(&[":1.2"]));
}

#[test]
fn remove_drops_player_and_all_its_channels() {
    let mut registry = Players::new();
    registry.add("p".to_string(), names(&[":1.1", ":1.2"]));
    registry.add("q".to_string(), names(&[":1.3"]));
    registry.remove("p");
    assert!(registry.get_channels("p").is_none());
    assert_eq!(registry.find_by_channel(":1.1"), None);
    assert_eq!(registry.find_by_channel(":1.2"), None);
    assert_eq!(registry.find_by_channel(":1.3"), Some("q".to_string()));
    assert_eq!(registry.get_channels("q").unwrap(), &names(&[":1.3"]));
}

#[test]
fn remove_of_unknown_is_no_op() {
    let mut registry = Players::new();
    registry.add("p".to_string(), names(&[":1.1"]));
    registry.remove("z");
    registry.remove("");
    assert_eq!(registry.find_by_channel(":1.1"), Some("p".to_string()));
    assert_eq!(registry.get_channels("p").unwrap(), &names(&[":1.1"]));
}

#[test]
fn find_by_channel_compares_whole_names() {
    let mut registry = Players::new();
    registry.add("p".to_string(), names(&[":1.10"]));
    assert_eq!(registry.find_by_channel(":1.1"), None);
    assert_eq!(registry.find_by_channel(":1.100"), None);
    assert_eq!(registry.find_by_channel(":1.10"), Some("p".to_string()));
}
