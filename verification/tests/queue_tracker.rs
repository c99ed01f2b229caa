use tsubasa::queue::manager::{QueueManager, QueuePosition, QueuedTorrent};
use tsubasa::settings::schema::QueueSettings;
use tsubasa::tracker::auto_append::{parse_tracker_list, TrackerAutoAppend};
use tsubasa::tracker::manager::{TrackerEntry, TrackerManager, TrackerStatus};

fn queued(id: &str, priority: i32, added_at: u64, downloading: bool) -> QueuedTorrent {
    QueuedTorrent {
        id: id.to_string(),
        is_downloading: downloading,
        is_seeding: !downloading,
        download_speed: 0,
        upload_speed: 0,
        priority,
        added_at,
        queue_position: QueuePosition::Queued(0),
        force_started: false,
    }
}

fn config(dl: u32, ul: u32, total: u32) -> QueueSettings {
    let mut c = QueueSettings::default();
    c.max_active_downloads = dl;
    c.max_active_uploads = ul;
    c.max_active_total = total;
    c
}

#[test]
fn queue_promotes_highest_priority_first() {
    let mut m = QueueManager::new(config(1, 5, 8));
    m.register(queued("low", 0, 1, true));
    m.register(queued("high", 5, 2, true));
    let actions = m.evaluate();
    assert_eq!(actions.to_start, vec!["high".to_string()]);
    assert!(actions.to_queue.is_empty());
    assert_eq!(m.get_position("high"), Some(QueuePosition::Active));
    assert_eq!(m.get_position("low"), Some(QueuePosition::Queued(1)));
    assert_eq!(m.get_position("missing"), None);
}

#[test]
fn queue_ties_go_to_oldest_and_respect_total() {
    let mut m = QueueManager::new(config(5, 5, 2));
    m.register(queued("c", 1, 30, true));
    m.register(queued("a", 1, 10, true));
    m.register(queued("b", 1, 20, false));
    let actions = m.evaluate();
    assert_eq!(actions.to_start, vec!["a".to_string(), "b".to_string()]);
    let all = m.get_all_positions();
    assert_eq!(all[0], ("c".to_string(), QueuePosition::Queued(1)));
    assert_eq!(all[1], ("a".to_string(), QueuePosition::Active));
    assert_eq!(all[2], ("b".to_string(), QueuePosition::Active));
    // Nothing more to promote once the total is reached.
    let again = m.evaluate();
    assert!(again.to_start.is_empty());
}

#[test]
fn queue_force_start_and_unregister() {
    let mut m = QueueManager::new(config(0, 0, 0));
    m.register(queued("x", 0, 1, true));
    m.force_start("x");
    assert_eq!(m.get_position("x"), Some(QueuePosition::ForceStarted));
    assert!(m.evaluate().to_start.is_empty());
    m.unregister("x");
    assert_eq!(m.get_position("x"), None);
}

#[test]
fn queue_slow_torrents_free_slots_when_excluded() {
    let mut c = config(1, 5, 8);
    c.exclude_slow_from_count = true;
    let mut m = QueueManager::new(c);
    let mut active = queued("slow", 0, 1, true);
    active.queue_position = QueuePosition::Active;
    active.download_speed = 10; // below the 1024 B/s threshold
    m.register(active);
    m.register(queued("next", 0, 2, true));
    assert_eq!(m.evaluate().to_start, vec!["next".to_string()]);

    let mut c2 = config(1, 5, 8);
    c2.exclude_slow_from_count = false;
    let mut m2 = QueueManager::new(c2);
    let mut active2 = queued("slow", 0, 1, true);
    active2.queue_position = QueuePosition::Active;
    m2.register(active2);
    m2.register(queued("next", 0, 2, true));
    assert!(m2.evaluate().to_start.is_empty());
}

#[test]
fn queue_set_priority_changes_order() {
    let mut m = QueueManager::new(config(1, 5, 8));
    m.register(queued("first", 0, 1, true));
    m.register(queued("second", 0, 2, true));
    m.set_priority("second", 3);
    assert_eq!(m.evaluate().to_start, vec!["second".to_string()]);
}

#[test]
fn tracker_health_and_disable() {
    let mut e = TrackerEntry::new("udp://t.example:80".to_string(), 0);
    assert_eq!(e.status, TrackerStatus::NotContacted);
    e.record_failure("timeout".to_string());
    assert_eq!(e.health_score, -25);
    assert_eq!(e.status, TrackerStatus::Error);
    e.record_failure("timeout".to_string());
    assert_eq!(e.health_score, -50);
    assert_eq!(e.status, TrackerStatus::Error);
    e.record_failure("timeout".to_string());
    assert_eq!(e.health_score, -75);
    assert_eq!(e.status, TrackerStatus::Disabled);
    assert_eq!(e.last_error, Some("timeout".to_string()));
    e.record_success(10, 4, 2);
    assert_eq!(e.status, TrackerStatus::Working);
    assert_eq!(e.health_score, 10 - 15);
    assert_eq!(e.consecutive_fails, 0);
    assert_eq!(e.last_error, None);
}

#[test]
fn tracker_manager_lists_and_swarm() {
    let mut m = TrackerManager::new();
    m.register_torrent("t1", vec![("udp://a".to_string(), 0), ("udp://b".to_string(), 1)]);
    m.add_tracker("t1", "udp://a".to_string(), 2);
    m.add_tracker("t1", "udp://c".to_string(), 2);
    let list = m.get_trackers("t1");
    assert_eq!(list.len(), 3);
    assert_eq!(list[2].url, "udp://c");
    assert_eq!(m.get_swarm_info("t1"), (0, 0));
    m.record_success("t1", "udp://a", 5, 9, 1);
    m.record_success("t1", "udp://b", 7, 2, 1);
    assert_eq!(m.get_swarm_info("t1"), (7, 9));
    m.record_failure("t1", "udp://b", "down".to_string());
    assert_eq!(m.get_swarm_info("t1"), (5, 9));
    m.enable_tracker("t1", "udp://b");
    assert_eq!(m.get_trackers("t1")[1].status, TrackerStatus::NotContacted);
    m.remove_tracker("t1", "udp://a");
    assert_eq!(m.get_trackers("t1").len(), 2);
    m.unregister_torrent("t1");
    assert!(m.get_trackers("t1").is_empty());
    assert_eq!(m.get_swarm_info("t1"), (0, 0));
}

#[test]
fn tracker_list_parsing() {
    let body = "udp://tracker.one:1337/announce\n\n  http://two/announce  \r\nws://skip\nhttps://three/a\n# no";
    assert_eq!(
        parse_tracker_list(body),
        vec![
            "udp://tracker.one:1337/announce".to_string(),
            "http://two/announce".to_string(),
            "https://three/a".to_string()
        ]
    );
}

#[test]
fn auto_append_refresh_cycle() {
    let mut a = TrackerAutoAppend::new();
    assert!(a.get_list().is_empty());
    assert!(a.needs_refresh(0));
    assert_eq!(a.refresh_from_body("udp://x\nnot\n", 100), 1);
    assert_eq!(a.get_list(), vec!["udp://x".to_string()]);
    assert!(!a.needs_refresh(100 + 86_400));
    assert!(a.needs_refresh(100 + 86_401));
    a.set_list(vec!["http://y".to_string()], 500);
    assert_eq!(a.get_list(), vec!["http://y".to_string()]);
    assert!(!a.needs_refresh(600));
}

#[test]
fn queue_demotes_past_a_lowered_total_limit() {
    let mut m = QueueManager::new(config(5, 5, 3));
    m.register(queued("a", 0, 1, true));
    m.register(queued("b", 0, 2, true));
    m.register(queued("c", 0, 3, false));
    m.register(queued("w", 0, 4, true));
    let first = m.evaluate();
    assert_eq!(first.to_start.len(), 3);
    m.update_config(config(5, 5, 1));
    let actions = m.evaluate();
    assert!(actions.to_start.is_empty());
    assert_eq!(actions.to_queue, vec!["b".to_string(), "c".to_string()]);
    let all = m.get_all_positions();
    assert_eq!(all[0], ("a".to_string(), QueuePosition::Active));
    assert_eq!(all[1], ("b".to_string(), QueuePosition::Queued(1)));
    assert_eq!(all[2], ("c".to_string(), QueuePosition::Queued(2)));
    assert_eq!(all[3], ("w".to_string(), QueuePosition::Queued(3)));
}
