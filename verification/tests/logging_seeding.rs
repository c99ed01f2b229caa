use tsubasa::logging::{LogEntry, LogRingBuffer};
use tsubasa::seeding::{check_limits, evaluate_seeding_rules, SeedingLimitReason, SeedingTorrentInfo};
use tsubasa::settings::schema::{Ratio, SeedingAction, SeedingSettings, TorrentOverrides};

fn entry(msg: &str) -> LogEntry {
    LogEntry {
        timestamp: "2024-01-01T00:00:00Z".to_string(),
        level: "INFO".to_string(),
        target: "tsubasa".to_string(),
        message: msg.to_string(),
    }
}

fn messages(v: &[LogEntry]) -> Vec<String> {
    v.iter().map(|e| e.message.clone()).collect()
}

#[test]
fn ring_buffer_evicts_oldest() {
    let mut b = LogRingBuffer::new(3);
    assert!(b.is_empty());
    for m in ["a", "b", "c", "d", "e"] {
        b.push(entry(m));
    }
    assert_eq!(b.len(), 3);
    assert_eq!(messages(&b.get_all()), vec!["c", "d", "e"]);
    assert_eq!(messages(&b.get_since(1)), vec!["d", "e"]);
    assert!(b.get_since(3).is_empty());
    assert!(b.get_since(100).is_empty());
    b.clear();
    assert_eq!(b.len(), 0);
}

#[test]
fn ring_buffer_zero_capacity_keeps_latest() {
    let mut b = LogRingBuffer::new(0);
    b.push(entry("x"));
    b.push(entry("y"));
    assert_eq!(messages(&b.get_all()), vec!["y"]);
}

#[test]
fn ring_buffer_default_capacity() {
    let mut b = LogRingBuffer::default();
    for i in 0..5001 {
        b.push(entry(&i.to_string()));
    }
    assert_eq!(b.len(), 5000);
    assert_eq!(b.get_all()[0].message, "1");
}

fn torrent(id: &str, ratio: u64, seed_secs: u64, inactive_secs: u64, speed: u64) -> SeedingTorrentInfo {
    SeedingTorrentInfo {
        id: id.to_string(),
        name: format!("name-{id}"),
        ratio: Ratio { thousandths: ratio },
        seed_time_secs: seed_secs,
        inactive_time_secs: inactive_secs,
        upload_speed: speed,
        overrides: None,
    }
}

#[test]
fn seeding_ratio_then_time_then_inactivity() {
    let g = SeedingSettings {
        global_ratio_limit: Some(Ratio { thousandths: 2000 }),
        global_time_limit_mins: Some(60),
        inactive_timeout_mins: Some(30),
        action_on_limit: SeedingAction::Remove,
    };
    let ts = vec![
        torrent("ratio", 2000, 7200, 3600, 0),
        torrent("time", 1999, 3600, 0, 5),
        torrent("idle", 100, 59 * 60 + 59, 30 * 60, 0),
        torrent("busy", 100, 0, 30 * 60, 1),
        torrent("fine", 1999, 3599, 1799, 0),
    ];
    let actions = evaluate_seeding_rules(&ts, &g);
    assert_eq!(actions.len(), 3);
    assert_eq!(actions[0].torrent_id, "ratio");
    assert_eq!(actions[0].torrent_name, "name-ratio");
    assert_eq!(actions[0].action, SeedingAction::Remove);
    assert_eq!(
        actions[0].reason,
        SeedingLimitReason::RatioReached {
            current: Ratio { thousandths: 2000 },
            limit: Ratio { thousandths: 2000 }
        }
    );
    assert_eq!(
        actions[1].reason,
        SeedingLimitReason::TimeLimitReached { minutes_seeded: 60, limit_minutes: 60 }
    );
    assert_eq!(
        actions[2].reason,
        SeedingLimitReason::InactiveTimeout { inactive_minutes: 30, limit_minutes: 30 }
    );
}

#[test]
fn seeding_overrides_take_priority() {
    let g = SeedingSettings::default();
    let mut t = torrent("o", 1500, 0, 0, 0);
    let mut o = TorrentOverrides::default();
    o.ratio_limit = Some(Ratio { thousandths: 1000 });
    t.overrides = Some(o);
    assert_eq!(
        check_limits(&t, &g),
        Some(SeedingLimitReason::RatioReached {
            current: Ratio { thousandths: 1500 },
            limit: Ratio { thousandths: 1000 }
        })
    );
    let plain = torrent("p", 1500, 0, 0, 0);
    assert_eq!(check_limits(&plain, &g), None);
}

#[test]
fn seeding_no_limits_no_actions() {
    let g = SeedingSettings {
        global_ratio_limit: None,
        global_time_limit_mins: None,
        inactive_timeout_mins: None,
        action_on_limit: SeedingAction::Pause,
    };
    let ts = vec![torrent("a", 99_000, 1_000_000, 1_000_000, 0)];
    assert!(evaluate_seeding_rules(&ts, &g).is_empty());
}

#[test]
fn seeding_reason_texts() {
    assert_eq!(
        SeedingLimitReason::RatioReached {
            current: Ratio { thousandths: 2345 },
            limit: Ratio { thousandths: 2000 }
        }
        .to_display_string(),
        "Ratio 2.35 reached limit 2.00"
    );
    assert_eq!(
        SeedingLimitReason::TimeLimitReached { minutes_seeded: 90, limit_minutes: 60 }.to_display_string(),
        "Seeded 90m, limit 60m"
    );
    assert_eq!(
        SeedingLimitReason::InactiveTimeout { inactive_minutes: 31, limit_minutes: 30 }.to_display_string(),
        "Inactive 31m, timeout 30m"
    );
}
