use tsubasa::commands::start_follow_up;
use tsubasa::cloud::{ProviderKind, TorrentSource};
use tsubasa::commands::{
    add_torrent_response, announce_added, cloud_source, cloud_statuses, magnet_for_source, prepare_torrent_record,
    provider_for_command, AddTorrentRequest, AppInfo,
};
use tsubasa::error::{CloudError, DatabaseError, DownloadError, EngineError, TsubasaError};
use tsubasa::network::{
    apply_session_limits, BandwidthConfig, ConnectionManager, ProxyManager, TorrentBandwidthConfig,
};
use tsubasa::orchestrator::StartResult;
use tsubasa::settings::legacy::AppSettings;
use tsubasa::settings::schema::{ConnectionSettings, ProxyAuth, ProxySettings, ProxyType, Ratio};
use tsubasa::state_machine::{parse_policy, parse_state, DownloadPolicy, TorrentState};
use tsubasa::storage::{SessionManager, TorrentTrackerInfo};

#[test]
fn bandwidth_limits_truncate_to_32_bits() {
    let d = BandwidthConfig::default();
    assert_eq!((d.max_connections, d.max_connections_per_torrent), (500, 100));
    let l = d.to_librqbit_limits();
    assert_eq!((l.download_bps, l.upload_bps), (None, None));
    let c = BandwidthConfig { download_limit: 1_000_000, upload_limit: 1u64 << 32, max_connections: 1, max_connections_per_torrent: 1 };
    let l2 = apply_session_limits(&c);
    assert_eq!(l2.download_bps, Some(1_000_000));
    assert_eq!(l2.upload_bps, None);
    let t = TorrentBandwidthConfig { download_limit: (1u64 << 32) + 5, upload_limit: 7 };
    let l3 = t.to_librqbit_limits();
    assert_eq!((l3.download_bps, l3.upload_bps), (Some(5), Some(7)));
    assert_eq!(TorrentBandwidthConfig::default().to_librqbit_limits().download_bps, None);
}

#[test]
fn proxy_urls() {
    let mut s = ProxySettings::default();
    let mut m = ProxyManager::new(s.clone());
    assert!(!m.is_active());
    assert_eq!(m.proxy_url(), None);
    s.proxy_type = ProxyType::Socks5;
    s.host = "127.0.0.1".to_string();
    s.port = 9050;
    m.update(s.clone());
    assert!(m.is_active());
    assert_eq!(m.proxy_url(), Some("socks5://127.0.0.1:9050".to_string()));
    s.auth = Some(ProxyAuth { username: "u".to_string(), password: "p".to_string() });
    s.proxy_type = ProxyType::Http;
    s.apply_to_search = true;
    m.update(s.clone());
    assert_eq!(m.proxy_url(), Some("http://u:p@127.0.0.1:9050".to_string()));
    assert!(m.apply_to_search());
    assert!(!m.apply_to_trackers());
    s.host = String::new();
    m.update(s);
    assert_eq!(m.proxy_url(), None);
}

#[test]
fn connection_restart_rules() {
    let base = ConnectionSettings::default();
    let mut m = ConnectionManager::new(base.clone());
    let mut other = base.clone();
    other.global_max_connections = 10;
    assert!(!m.update(other.clone()));
    assert_eq!(m.global_max_connections(), 10);
    let mut moved = other.clone();
    moved.listen_port = 7000;
    assert!(m.update(moved.clone()));
    let mut bound = moved.clone();
    bound.bind_interface = Some("eth0".to_string());
    assert!(m.update(bound));
    assert!(ConnectionManager::requires_restart("listen_port"));
    assert!(ConnectionManager::requires_restart("bind_interface"));
    assert!(!ConnectionManager::requires_restart("enable_upnp"));
    assert!(m.upnp_enabled() && m.utp_enabled());
    assert_eq!(m.per_torrent_max_connections(), 100);
}

#[test]
fn stored_names_parse() {
    assert_eq!(parse_state("seeding"), TorrentState::Seeding);
    assert_eq!(parse_state("paused"), TorrentState::Paused);
    assert_eq!(parse_state("bogus"), TorrentState::Errored);
    assert_eq!(parse_state(TorrentState::Checking.as_str()), TorrentState::Checking);
    assert_eq!(parse_policy("hybrid"), DownloadPolicy::Hybrid);
    assert_eq!(parse_policy("cloud_only"), DownloadPolicy::CloudOnly);
    assert_eq!(parse_policy("??"), DownloadPolicy::LocalOnly);
}

#[test]
fn session_files_and_trackers() {
    let m = SessionManager::new("/var/lib/tsubasa/sessions".to_string());
    assert_eq!(m.session_dir(), "/var/lib/tsubasa/sessions");
    let p = m.session_path("abcd");
    assert!(p.ends_with("abcd.session"));
    assert_ne!(p, "abcd.session");
    let t = TorrentTrackerInfo::unknown_status("udp://x".to_string());
    assert_eq!(t.status, "unknown");
}

fn settings() -> AppSettings {
    let mut s = AppSettings::default_with("/dl".to_string());
    s.default_policy = DownloadPolicy::Hybrid;
    s.default_ratio_limit = Ratio { thousandths: 1500 };
    s
}

const ID: &str = "0123456789abcdef-rest-of-uuid";

#[test]
fn add_torrent_record_for_magnet() {
    let req = AddTorrentRequest {
        source: "magnet:?xt=urn:btih:ABCD&dn=My%20Show".to_string(),
        save_path: None,
        policy: None,
    };
    let r = prepare_torrent_record(&req, ID, &settings(), "2024-01-01T00:00:00Z".to_string());
    assert_eq!(r.id, ID);
    assert_eq!(r.name, "My Show");
    assert_eq!(r.info_hash, "abcd");
    assert_eq!(r.state, TorrentState::Pending);
    assert_eq!(r.policy, DownloadPolicy::Hybrid);
    assert_eq!(r.save_path, "/dl");
    assert_eq!(r.magnet_uri, Some(req.source.clone()));
    assert_eq!(r.added_at, "2024-01-01T00:00:00Z");
    assert_eq!(r.ratio_limit, Ratio { thousandths: 1500 });
    let nameless = AddTorrentRequest {
        source: "magnet:?xt=urn:btih:ABCD".to_string(),
        save_path: Some("/custom".to_string()),
        policy: Some(DownloadPolicy::LocalOnly),
    };
    let r2 = prepare_torrent_record(&nameless, ID, &settings(), String::new());
    assert_eq!(r2.name, "Torrent 01234567");
    assert_eq!(r2.save_path, "/custom");
    assert_eq!(r2.policy, DownloadPolicy::LocalOnly);
}

#[test]
fn add_torrent_record_for_file() {
    let req = AddTorrentRequest { source: "/home/u/ubuntu-24.04.iso.torrent".to_string(), save_path: None, policy: None };
    let r = prepare_torrent_record(&req, ID, &settings(), String::new());
    assert_eq!(r.name, "ubuntu-24.04.iso");
    assert_eq!(r.info_hash, "0123456789abcdef");
    assert_eq!(r.magnet_uri, None);
}

#[test]
fn add_torrent_answers() {
    let ok = Ok(StartResult {
        info_hash: "real".to_string(),
        name: String::new(),
        total_bytes: 0,
        local_started: false,
        cloud_started: true,
    });
    let resp = add_torrent_response("id".to_string(), "prelim".to_string(), "h".to_string(), &ok);
    assert_eq!((resp.name.as_str(), resp.info_hash.as_str()), ("prelim", "real"));
    assert!(announce_added(ok.as_ref().unwrap()));
    let err: Result<StartResult, TsubasaError> = Err(TsubasaError::Download(DownloadError::NoPath));
    let resp2 = add_torrent_response("id".to_string(), "prelim".to_string(), "h".to_string(), &err);
    assert_eq!((resp2.name.as_str(), resp2.info_hash.as_str()), ("prelim", "h"));
}

#[test]
fn cloud_command_helpers() {
    let st = cloud_statuses(true, false, true, true);
    assert_eq!((st[0].name.as_str(), st[0].configured, st[0].connected), ("Torbox", true, false));
    assert_eq!((st[1].name.as_str(), st[1].configured, st[1].connected), ("Real-Debrid", true, true));
    assert_eq!(provider_for_command("torbox"), Ok(ProviderKind::Torbox));
    assert_eq!(
        provider_for_command("foo"),
        Err(TsubasaError::Cloud {
            provider: "foo".to_string(),
            source: CloudError::Unavailable("Unknown provider: foo".to_string())
        })
    );
    let hash = "0123456789abcdef0123456789ABCDEF01234567".to_string();
    assert!(matches!(cloud_source(hash.clone()), TorrentSource::InfoHash(ref h) if *h == hash));
    assert!(matches!(cloud_source("magnet:?x".to_string()), TorrentSource::MagnetUri(_)));
    assert!(matches!(cloud_source("xyz".to_string()), TorrentSource::MagnetUri(_)));
    assert_eq!(
        magnet_for_source(&TorrentSource::InfoHash("ab".to_string())),
        Some("magnet:?xt=urn:btih:ab".to_string())
    );
    assert_eq!(magnet_for_source(&TorrentSource::TorrentFile(vec![1, 2])), None);
    let info = AppInfo::new("0.1.0".to_string(), true, 5);
    assert_eq!(info.uptime_seconds, 5);
}

#[test]
fn error_messages() {
    assert_eq!(
        TsubasaError::Cloud { provider: "torbox".to_string(), source: CloudError::RateLimited { retry_after_secs: 30 } }
            .message(),
        "Cloud provider error (torbox): Rate limited, retry after 30s"
    );
    assert_eq!(
        TsubasaError::Engine(EngineError::PieceVerification { piece_index: 12 }).message(),
        "Torrent engine error: Piece verification failed for piece 12"
    );
    assert_eq!(TsubasaError::Download(DownloadError::Cancelled).message(), "Download error: Cancelled");
    assert_eq!(
        TsubasaError::Database(DatabaseError::NotFound("t1".to_string())).message(),
        "Database error: Record not found: t1"
    );
    assert_eq!(
        TsubasaError::Timeout { operation: "poll".to_string(), duration_ms: 1500 }.message(),
        "Operation timed out after 1.5s: poll"
    );
    assert_eq!(
        TsubasaError::Timeout { operation: "x".to_string(), duration_ms: 2005 }.message(),
        "Operation timed out after 2.005s: x"
    );
    assert_eq!(
        TsubasaError::Timeout { operation: "x".to_string(), duration_ms: 250 }.message(),
        "Operation timed out after 250ms: x"
    );
    assert_eq!(TsubasaError::Internal("plain".to_string()).message(), "plain");
    assert_eq!(
        TsubasaError::InvalidTransition { from: "pending".to_string(), to: "seeding".to_string() }.message(),
        "Invalid state transition: pending -> seeding"
    );
}

#[test]
fn start_follow_up_records_the_outcome() {
    let ok = Ok(StartResult {
        info_hash: String::new(),
        name: String::new(),
        total_bytes: 0,
        local_started: false,
        cloud_started: true,
    });
    let f = start_follow_up(&ok);
    assert_eq!(f.state, TorrentState::Downloading);
    assert!(f.announce_downloading && f.announce_added);
    assert_eq!(f.error_message, None);
    assert_eq!(f.report_error, None);
    let err: Result<StartResult, TsubasaError> = Err(TsubasaError::Download(DownloadError::Cancelled));
    let f = start_follow_up(&err);
    assert_eq!(f.state, TorrentState::Errored);
    assert!(!f.announce_downloading && !f.announce_added);
    let msg = TsubasaError::Download(DownloadError::Cancelled).message();
    assert_eq!(f.error_message, Some(msg.clone()));
    assert_eq!(f.report_error, Some(msg));
}
