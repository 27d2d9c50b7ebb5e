use player_watcher::notifier::{same_active, Notifier, Wake};
use player_watcher::players_queue::PlayersQueue;

fn announced(wake: Wake) -> Option<Option<String>> {
    match wake {
        Wake::Silent => None,
        Wake::Announce(active) => Some(active),
    }
}

#[test]
fn new_notifier_has_announced_nothing() {
    let notifier = Notifier::new();
    assert_eq!(notifier.last_announced(), None);
    let notifier = Notifier::default();
    assert_eq!(notifier.last_announced(), None);
}

#[test]
fn no_announcement_while_no_player_is_active() {
    let mut notifier = Notifier::new();
    assert_eq!(announced(notifier.observe(None)), None);
    assert_eq!(announced(notifier.observe(None)), None);
    assert_eq!(notifier.last_announced(), None);
}

#[test]
fn first_active_player_is_announced() {
    let mut notifier = Notifier::new();
    let wake = notifier.observe(Some("A".to_string()));
    assert_eq!(announced(wake), Some(Some("A".to_string())));
    assert_eq!(notifier.last_announced(), Some("A".to_string()));
}

#[test]
fn spurious_wakeups_announce_nothing() {
    let mut notifier = Notifier::new();
    assert_eq!(announced(notifier.observe(Some("A".to_string()))), Some(Some("A".to_string())));
    for _ in 0..5 {
        assert_eq!(announced(notifier.observe(Some("A".to_string()))), None);
    }
    assert_eq!(notifier.last_announced(), Some("A".to_string()));
}

#[test]
fn burst_with_one_final_head_announces_once() {
    let mut queue = PlayersQueue::new();
    let mut notifier = Notifier::new();
    // five changes of the queue before the notifier runs
    queue.add_player("A".to_string(), true);
    queue.add_player("B".to_string(), true);
    queue.add_player("C".to_string(), false);
    let _ = queue.demote("B".to_string());
    let _ = queue.promote("C".to_string());
    assert_eq!(queue.get_active(), Some("C".to_string()));
    // each of them has asked for a wake-up
    let mut count = 0;
    for _ in 0..5 {
        if let Wake::Announce(active) = notifier.wake(&queue) {
            assert_eq!(active, Some("C".to_string()));
            count += 1;
        }
    }
    assert_eq!(count, 1);
}

#[test]
fn one_announcement_for_each_distinct_head() {
    let mut notifier = Notifier::new();
    let heads = [Some("A"), Some("B"), None, Some("A"), Some("C")];
    let mut out = Vec::new();
    for head in heads {
        if let Wake::Announce(active) = notifier.observe(head.map(|s| s.to_string())) {
            out.push(active);
        }
    }
    assert_eq!(
        out,
        vec![
            Some("A".to_string()),
            Some("B".to_string()),
            None,
            Some("A".to_string()),
            Some("C".to_string())
        ]
    );
}

#[test]
fn repeated_heads_collapse() {
    let mut notifier = Notifier::new();
    let heads = [None, Some("A"), Some("A"), Some("B"), Some("B"), Some("B"), Some("A"), None, None];
    let mut out = Vec::new();
    for head in heads {
        if let Wake::Announce(active) = notifier.observe(head.map(|s| s.to_string())) {
            out.push(active);
        }
    }
    assert_eq!(
        out,
        vec![Some("A".to_string()), Some("B".to_string()), Some("A".to_string()), None]
    );
}

#[test]
fn departure_of_last_player_is_announced() {
    let mut queue = PlayersQueue::new();
    let mut notifier = Notifier::new();
    queue.add_player("A".to_string(), false);
    assert_eq!(announced(notifier.wake(&queue)), Some(Some("A".to_string())));
    queue.remove_player("A");
    assert_eq!(announced(notifier.wake(&queue)), Some(None));
    assert_eq!(announced(notifier.wake(&queue)), None);
}

#[test]
fn change_that_keeps_the_head_is_silent() {
    let mut queue = PlayersQueue::new();
    let mut notifier = Notifier::new();
    queue.add_player("A".to_string(), true);
    assert_eq!(announced(notifier.wake(&queue)), Some(Some("A".to_string())));
    queue.add_player("B".to_string(), false);
    assert_eq!(announced(notifier.wake(&queue)), None);
    queue.shift();
    queue.unshift();
    assert_eq!(announced(notifier.wake(&queue)), None);
}

#[test]
fn empty_name_differs_from_no_player() {
    let mut notifier = Notifier::new();
    assert_eq!(announced(notifier.observe(Some(String::new()))), Some(Some(String::new())));
    assert_eq!(announced(notifier.observe(None)), Some(None));
}

#[test]
fn same_active_compares_by_value() {
    assert!(same_active(&None, &None));
    assert!(same_active(&Some("A".to_string()), &Some("A".to_string())));
    assert!(!same_active(&Some("A".to_string()), &Some("B".to_string())));
    assert!(!same_active(&Some("A".to_string()), &None));
    assert!(!same_active(&None, &Some("A".to_string())));
    assert!(!same_active(&None, &Some(String::new())));
}
