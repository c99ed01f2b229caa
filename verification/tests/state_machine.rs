use tsubasa::engine::{poll_round, TorrentPoll};
use tsubasa::error::TsubasaError;
use tsubasa::state_machine::{DownloadPolicy, TorrentState};

#[test]
fn valid_transitions() {
    let state = TorrentState::Pending;
    assert!(state.can_transition_to(TorrentState::Downloading));
    assert!(state.can_transition_to(TorrentState::Checking));
    assert!(state.can_transition_to(TorrentState::Errored));
}

#[test]
fn invalid_transitions() {
    let state = TorrentState::Pending;
    assert!(!state.can_transition_to(TorrentState::Seeding));
    assert!(!state.can_transition_to(TorrentState::Completed));
}

#[test]
fn noop_transition() {
    let state = TorrentState::Downloading;
    assert_eq!(
        state.transition_to(TorrentState::Downloading).unwrap(),
        TorrentState::Downloading
    );
}

#[test]
fn full_lifecycle() {
    let mut state = TorrentState::Pending;
    state = state.transition_to(TorrentState::Downloading).unwrap();
    state = state.transition_to(TorrentState::Completed).unwrap();
    state = state.transition_to(TorrentState::Seeding).unwrap();
    state = state.transition_to(TorrentState::Stopped).unwrap();
    assert_eq!(state, TorrentState::Stopped);
}

#[test]
fn refused_transition_names_both_states() {
    let err = TorrentState::Completed
        .transition_to(TorrentState::Downloading)
        .unwrap_err();
    assert_eq!(
        err,
        TsubasaError::InvalidTransition {
            from: "completed".to_string(),
            to: "downloading".to_string(),
        }
    );
}

#[test]
fn terminal_and_active_states() {
    assert!(TorrentState::Stopped.is_terminal());
    assert!(TorrentState::Errored.is_terminal());
    assert!(!TorrentState::Paused.is_terminal());
    assert!(TorrentState::Pending.is_active());
    assert!(TorrentState::Seeding.is_active());
    assert!(!TorrentState::Queued.is_active());
    assert!(!TorrentState::Completed.is_active());
}

#[test]
fn every_state_can_reach_stopped() {
    let all = [
        TorrentState::Pending,
        TorrentState::Checking,
        TorrentState::Queued,
        TorrentState::Downloading,
        TorrentState::Paused,
        TorrentState::Completed,
        TorrentState::Seeding,
        TorrentState::Stopped,
        TorrentState::Errored,
    ];
    for s in all {
        let direct = s == TorrentState::Stopped || s.can_transition_to(TorrentState::Stopped);
        let two = all
            .iter()
            .any(|m| s.can_transition_to(*m) && m.can_transition_to(TorrentState::Stopped));
        assert!(direct || two);
        assert!(!s.can_transition_to(s));
    }
}

#[test]
fn state_and_policy_names() {
    assert_eq!(TorrentState::Downloading.as_str(), "downloading");
    assert_eq!(TorrentState::Errored.to_display_string(), "errored");
    assert_eq!(DownloadPolicy::Hybrid.as_str(), "hybrid");
    assert_eq!(DownloadPolicy::default(), DownloadPolicy::LocalOnly);
}

#[test]
fn poll_round_announces_each_completion_once() {
    let mut ts = vec![
        TorrentPoll { state: TorrentState::Downloading, finished: true, notified: false, live_peers: Some(4) },
        TorrentPoll { state: TorrentState::Downloading, finished: false, notified: false, live_peers: Some(3) },
        TorrentPoll { state: TorrentState::Paused, finished: true, notified: false, live_peers: Some(9) },
        TorrentPoll { state: TorrentState::Seeding, finished: true, notified: true, live_peers: None },
        TorrentPoll { state: TorrentState::Pending, finished: false, notified: false, live_peers: None },
    ];
    let first = poll_round(&mut ts);
    assert_eq!(first.active_torrents, 2);
    assert_eq!(first.total_peers, 7);
    assert_eq!(first.completed, vec![0]);
    assert_eq!(ts[0].state, TorrentState::Seeding);
    assert!(ts[0].notified);
    assert_eq!(ts[2].state, TorrentState::Paused);
    let second = poll_round(&mut ts);
    assert!(second.completed.is_empty());
    assert_eq!(second.active_torrents, 2);
    assert_eq!(second.total_peers, 7);
}
