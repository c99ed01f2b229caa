use tsubasa::cloud::torbox_create_reply;
use tsubasa::cloud::{provider_key, realdebrid_add_outcome, realdebrid_reply_error, torbox_reply};
use tsubasa::cloud::{
    realdebrid_add_url, realdebrid_cached_url, realdebrid_delete_url, realdebrid_info_url, realdebrid_select_url, torbox_cached_url,
    torbox_file_link_url, torbox_info_url, torbox_no_files, TorrentSource,
};
use tsubasa::cloud::{
    check_http_status, configured_providers, finished_download, get_provider, range_header,
    realdebrid_account, realdebrid_error_message, realdebrid_link, realdebrid_status, start_transfer,
    torbox_account, torbox_create_outcome, torbox_envelope, torbox_plan_name, torbox_status, CloudDownloadResult,
    CloudStatus, CloudTorrentId, DirectLink, ProviderKind, TorboxFile,
};
use tsubasa::error::{CloudError, DownloadError, EngineError, TsubasaError};
use tsubasa::orchestrator::{
    cloud_only_result, engine_not_initialized, hybrid_result, is_magnet, local_only_result, next_pick_step,
    provider_order, CloudLifecycle, DownloadConfig, LifecycleAction, LifecycleEvent, LifecyclePhase, PickStep,
    PreferredPath,
};
use tsubasa::state_machine::DownloadPolicy;

#[test]
fn provider_names_ignore_case() {
    assert_eq!(get_provider("TorBox"), Some(ProviderKind::Torbox));
    assert_eq!(get_provider("Real-Debrid"), Some(ProviderKind::RealDebrid));
    assert_eq!(get_provider("REAL_DEBRID"), Some(ProviderKind::RealDebrid));
    assert_eq!(get_provider("premiumize"), None);
    assert_eq!(configured_providers(true, true), vec!["Torbox", "Real-Debrid"]);
    assert_eq!(configured_providers(false, true), vec!["Real-Debrid"]);
    assert!(configured_providers(false, false).is_empty());
}

#[test]
fn http_status_errors() {
    assert_eq!(check_http_status(429, "429 Too Many Requests", 30), Some(CloudError::RateLimited { retry_after_secs: 30 }));
    assert_eq!(
        check_http_status(401, "401 Unauthorized", 30),
        Some(CloudError::AuthFailed("HTTP 401 Unauthorized".to_string()))
    );
    assert_eq!(check_http_status(200, "200 OK", 30), None);
    assert_eq!(check_http_status(500, "500 Internal Server Error", 30), None);
}

#[test]
fn torbox_states_map() {
    assert_eq!(torbox_status(Some("cached"), 0), CloudStatus::Cached);
    assert_eq!(torbox_status(Some("uploading"), 0), CloudStatus::Completed);
    assert_eq!(torbox_status(Some("metaDL"), 1234), CloudStatus::Downloading { progress_bp: 1234 });
    assert_eq!(torbox_status(Some("stalled (no seeds)"), 0), CloudStatus::Queued);
    assert_eq!(torbox_status(Some("paused"), 0), CloudStatus::Queued);
    assert_eq!(
        torbox_status(Some("dead"), 0),
        CloudStatus::Failed { reason: "Torrent failed on cloud provider".to_string() }
    );
    assert_eq!(torbox_status(Some("weird"), 0), CloudStatus::Unknown);
    assert_eq!(torbox_status(None, 0), CloudStatus::Unknown);
}

#[test]
fn realdebrid_states_map() {
    assert_eq!(realdebrid_status(Some("downloaded"), 0), CloudStatus::Completed);
    assert_eq!(realdebrid_status(Some("compressing"), 5000), CloudStatus::Downloading { progress_bp: 5000 });
    assert_eq!(realdebrid_status(Some("waiting_files_selection"), 0), CloudStatus::Queued);
    assert_eq!(
        realdebrid_status(Some("virus"), 0),
        CloudStatus::Failed { reason: "Real-Debrid status: virus".to_string() }
    );
    assert_eq!(realdebrid_status(Some("cached"), 0), CloudStatus::Unknown);
}

#[test]
fn torbox_plans_and_accounts() {
    assert_eq!(torbox_plan_name(Some(2)), "Pro");
    assert_eq!(torbox_plan_name(Some(9)), "Unknown");
    assert_eq!(torbox_plan_name(None), "Unknown");
    let a = torbox_account(None, Some(0), Some("2030-01-01".to_string()));
    assert_eq!((a.provider.as_str(), a.username.as_str(), a.plan.as_str()), ("Torbox", "Unknown", "Free"));
    assert_eq!(a.expiry, Some("2030-01-01".to_string()));
    let r = realdebrid_account(Some("bob".to_string()), None, None, Some(-1));
    assert_eq!((r.username.as_str(), r.plan.as_str()), ("bob", "unknown"));
    assert_eq!(r.points_used, Some(u64::MAX));
}

#[test]
fn torbox_file_names() {
    let f = TorboxFile { id: -7, name: None, short_name: None, size: None };
    assert_eq!(f.display_name(), "file_-7");
    let g = TorboxFile { id: 3, name: Some("dir/a.mkv".to_string()), short_name: None, size: Some(9) };
    assert_eq!(g.display_name(), "dir/a.mkv");
    let h = TorboxFile { id: 3, name: Some("dir/a.mkv".to_string()), short_name: Some("a.mkv".to_string()), size: None };
    assert_eq!(h.display_name(), "a.mkv");
    let l = g.to_link("https://cdn/x".to_string());
    assert_eq!(l, DirectLink { filename: "dir/a.mkv".to_string(), url: "https://cdn/x".to_string(), size_bytes: 9 });
}

#[test]
fn torbox_envelopes() {
    assert_eq!(torbox_envelope(true, None, None, Some(5u32)), Ok(5));
    assert_eq!(
        torbox_envelope::<u32>(true, None, None, None),
        Err(CloudError::ApiRequest("Response contained no data".to_string()))
    );
    assert_eq!(
        torbox_envelope::<u32>(false, None, Some("detail".to_string()), Some(1)),
        Err(CloudError::ApiRequest("detail".to_string()))
    );
    assert_eq!(
        torbox_envelope::<u32>(false, None, None, None),
        Err(CloudError::ApiRequest("Unknown API error".to_string()))
    );
}

#[test]
fn torbox_create_outcomes() {
    assert_eq!(torbox_create_outcome(true, None, None, Some(42)), Ok(CloudTorrentId("42".to_string())));
    assert_eq!(
        torbox_create_outcome(false, Some("DUPLICATE_TORRENT".to_string()), None, Some(7)),
        Ok(CloudTorrentId("7".to_string()))
    );
    assert_eq!(
        torbox_create_outcome(false, Some("BAD".to_string()), None, Some(7)),
        Err(CloudError::ApiRequest("Torbox API error: BAD".to_string()))
    );
    assert_eq!(
        torbox_create_outcome(false, Some("BAD".to_string()), Some("why".to_string()), None),
        Err(CloudError::ApiRequest("why".to_string()))
    );
    assert_eq!(
        torbox_create_outcome(true, None, None, None),
        Err(CloudError::ApiRequest("createtorrent succeeded but data was empty".to_string()))
    );
}

#[test]
fn realdebrid_replies() {
    assert_eq!(realdebrid_error_message(Some("bad_token".to_string()), "401 Unauthorized", "{}"), "bad_token");
    assert_eq!(realdebrid_error_message(None, "500 Internal Server Error", "oops"), "HTTP 500 Internal Server Error: oops");
    assert_eq!(realdebrid_link(None, None, None), None);
    assert_eq!(
        realdebrid_link(None, Some("u".to_string()), None),
        Some(DirectLink { filename: "unknown".to_string(), url: "u".to_string(), size_bytes: 0 })
    );
}

#[test]
fn transfer_resume_decisions() {
    assert_eq!(range_header(0), None);
    assert_eq!(range_header(1024), Some("bytes=1024-".to_string()));
    let fresh = start_transfer(0, 200, "200 OK", "u", None, Some(500)).unwrap();
    assert_eq!((fresh.resume, fresh.total_bytes, fresh.downloaded), (false, 500, 0));
    let resumed = start_transfer(100, 206, "206 Partial Content", "u", Some("bytes 100-999/1000"), Some(900)).unwrap();
    assert_eq!((resumed.resume, resumed.total_bytes, resumed.downloaded), (true, 1000, 100));
    let no_range = start_transfer(100, 206, "206 Partial Content", "u", Some("bytes */x"), Some(900)).unwrap();
    assert_eq!(no_range.total_bytes, 1000);
    let restarted = start_transfer(100, 200, "200 OK", "u", None, None).unwrap();
    assert_eq!((restarted.resume, restarted.total_bytes, restarted.downloaded), (false, 0, 0));
    assert_eq!(
        start_transfer(100, 416, "416 Range Not Satisfiable", "u", None, None),
        Err(TsubasaError::Download(DownloadError::HttpFetch("Range not satisfiable (file may be complete)".to_string())))
    );
    assert_eq!(
        start_transfer(0, 404, "404 Not Found", "https://x/y", None, None),
        Err(TsubasaError::Download(DownloadError::HttpFetch("HTTP 404 Not Found for https://x/y".to_string())))
    );
    assert_eq!(
        finished_download("a.bin", "/d/a.bin".to_string(), 9),
        CloudDownloadResult { filename: "a.bin".to_string(), save_path: "/d/a.bin".to_string(), total_bytes: 9 }
    );
}

#[test]
fn orchestrator_results() {
    assert!(is_magnet("magnet:?xt=urn:btih:aa"));
    assert!(!is_magnet("/tmp/x.torrent"));
    assert_eq!(
        engine_not_initialized(),
        TsubasaError::Engine(EngineError::Operation("Engine not initialized".to_string()))
    );
    let l = local_only_result("h".to_string(), "n".to_string(), 5);
    assert!(l.local_started && !l.cloud_started);
    let c = cloud_only_result();
    assert!(!c.local_started && c.cloud_started && c.name.is_empty());
    assert_eq!(hybrid_result(None, false), Err(TsubasaError::Download(DownloadError::NoPath)));
    let h = hybrid_result(Some(("h".to_string(), "n".to_string(), 9)), true).unwrap();
    assert!(h.local_started && h.cloud_started && h.total_bytes == 9);
    let only_cloud = hybrid_result(None, true).unwrap();
    assert!(!only_cloud.local_started && only_cloud.cloud_started);
    assert_eq!(PreferredPath::default(), PreferredPath::Race);
    let d = DownloadConfig::default();
    assert_eq!(d.policy, DownloadPolicy::LocalOnly);
    assert_eq!((d.speed_limit_down, d.speed_limit_up, d.max_peers), (0, 0, 0));
}

#[test]
fn provider_pick_prefers_cache() {
    let both = provider_order(true, true);
    assert_eq!(both, vec![ProviderKind::Torbox, ProviderKind::RealDebrid]);
    assert_eq!(next_pick_step(&[], true, &[]), PickStep::NoProvider);
    assert_eq!(next_pick_step(&both, false, &[]), PickStep::Select(ProviderKind::Torbox));
    assert_eq!(next_pick_step(&both, true, &[]), PickStep::CheckCache(ProviderKind::Torbox));
    assert_eq!(next_pick_step(&both, true, &[false]), PickStep::CheckCache(ProviderKind::RealDebrid));
    assert_eq!(next_pick_step(&both, true, &[false, true]), PickStep::Select(ProviderKind::RealDebrid));
    assert_eq!(next_pick_step(&both, true, &[true]), PickStep::Select(ProviderKind::Torbox));
    assert_eq!(next_pick_step(&both, true, &[false, false]), PickStep::Select(ProviderKind::Torbox));
}

fn link(name: &str, size: u64) -> DirectLink {
    DirectLink { filename: name.to_string(), url: format!("https://cdn/{name}"), size_bytes: size }
}

#[test]
fn lifecycle_happy_path() {
    let mut l = CloudLifecycle::new("torbox".to_string());
    let a = l.step(LifecycleEvent::Submitted(Ok(CloudTorrentId("9".to_string()))));
    assert!(matches!(a, LifecycleAction::TrackAndPoll(CloudTorrentId(ref s)) if s == "9"));
    assert!(matches!(l.step(LifecycleEvent::Status(Ok(CloudStatus::Queued))), LifecycleAction::Wait));
    assert!(matches!(
        l.step(LifecycleEvent::Status(Ok(CloudStatus::Downloading { progress_bp: 4200 }))),
        LifecycleAction::ReportProgressAndWait(4200)
    ));
    assert!(matches!(l.step(LifecycleEvent::Status(Ok(CloudStatus::Cached))), LifecycleAction::FetchLinks));
    let a = l.step(LifecycleEvent::Links(Ok(vec![link("a", 10), link("b", 32)])));
    assert!(matches!(a, LifecycleAction::DownloadFiles { total_bytes: 42 }));
    let done = vec![
        CloudDownloadResult { filename: "a".to_string(), save_path: "/d/a".to_string(), total_bytes: 10 },
        CloudDownloadResult { filename: "b".to_string(), save_path: "/d/b".to_string(), total_bytes: 30 },
    ];
    match l.step(LifecycleEvent::Downloaded(Ok(done))) {
        LifecycleAction::DeleteAndComplete { cloud_id, name, downloaded_bytes, total_bytes } => {
            assert_eq!(cloud_id, Some(CloudTorrentId("9".to_string())));
            assert_eq!((name.as_str(), downloaded_bytes, total_bytes), ("a", 40, 42));
        }
        other => panic!("unexpected action {other:?}"),
    }
    assert_eq!(l.phase, LifecyclePhase::Finished);
    assert!(matches!(l.step(LifecycleEvent::CancelRequested), LifecycleAction::Ignore));
}

#[test]
fn lifecycle_failures_and_cancel() {
    let mut l = CloudLifecycle::new("realdebrid".to_string());
    match l.step(LifecycleEvent::SourceUnreadable("No such file".to_string())) {
        LifecycleAction::Fail(e) => assert_eq!(
            e,
            TsubasaError::Download(DownloadError::FileWrite("Failed to read torrent file: No such file".to_string()))
        ),
        other => panic!("unexpected action {other:?}"),
    }
    assert_eq!(l.phase, LifecyclePhase::Failed);

    let mut c = CloudLifecycle::new("torbox".to_string());
    c.step(LifecycleEvent::Submitted(Ok(CloudTorrentId("5".to_string()))));
    assert!(matches!(c.step(LifecycleEvent::CancelRequested), LifecycleAction::DeleteAndCancel(CloudTorrentId(ref s)) if s == "5"));
    assert_eq!(c.phase, LifecyclePhase::Cancelled);

    let mut f = CloudLifecycle::new("torbox".to_string());
    f.step(LifecycleEvent::Submitted(Ok(CloudTorrentId("5".to_string()))));
    match f.step(LifecycleEvent::Status(Ok(CloudStatus::Failed { reason: "dead".to_string() }))) {
        LifecycleAction::Fail(e) => assert_eq!(
            e,
            TsubasaError::Cloud { provider: "torbox".to_string(), source: CloudError::DownloadFailed("dead".to_string()) }
        ),
        other => panic!("unexpected action {other:?}"),
    }

    let mut e = CloudLifecycle::new("torbox".to_string());
    e.step(LifecycleEvent::Submitted(Ok(CloudTorrentId("5".to_string()))));
    e.step(LifecycleEvent::Status(Ok(CloudStatus::Completed)));
    match e.step(LifecycleEvent::Links(Ok(vec![]))) {
        LifecycleAction::Fail(err) => assert_eq!(
            err,
            TsubasaError::Cloud {
                provider: "torbox".to_string(),
                source: CloudError::DownloadFailed("No download links returned".to_string())
            }
        ),
        other => panic!("unexpected action {other:?}"),
    }
}

#[test]
fn provider_request_urls() {
    let id = CloudTorrentId("42".to_string());
    assert_eq!(torbox_info_url(&id), "https://api.torbox.app/v1/api/torrents/mylist?bypass_cache=true&id=42");
    assert_eq!(
        torbox_file_link_url("KEY", &id, 7),
        "https://api.torbox.app/v1/api/torrents/requestdl?token=KEY&torrent_id=42&file_id=7&zip_link=false"
    );
    assert_eq!(
        torbox_cached_url("abcdef"),
        "https://api.torbox.app/v1/api/torrents/checkcached?hash=abcdef&format=list&list_files=false"
    );
    assert_eq!(realdebrid_info_url(&id), "https://api.real-debrid.com/rest/1.0/torrents/info/42");
    assert_eq!(realdebrid_select_url("X9"), "https://api.real-debrid.com/rest/1.0/torrents/selectFiles/X9");
    assert_eq!(realdebrid_delete_url(&id), "https://api.real-debrid.com/rest/1.0/torrents/delete/42");
    assert_eq!(
        realdebrid_cached_url("abcdef12"),
        "https://api.real-debrid.com/rest/1.0/torrents/instantAvailability/ABCDEF12"
    );
}

#[test]
fn torbox_without_files_is_a_download_failure() {
    match torbox_no_files() {
        TsubasaError::Cloud { provider, source: CloudError::DownloadFailed(m) } => {
            assert_eq!(provider, "torbox");
            assert_eq!(m, "No files in torrent");
        }
        _ => panic!("wrong error"),
    }
}

#[test]
fn realdebrid_add_endpoint_follows_source() {
    assert_eq!(
        realdebrid_add_url(&TorrentSource::MagnetUri("magnet:?xt=urn:btih:ab".to_string())),
        "https://api.real-debrid.com/rest/1.0/torrents/addMagnet"
    );
    assert_eq!(
        realdebrid_add_url(&TorrentSource::InfoHash("ab".to_string())),
        "https://api.real-debrid.com/rest/1.0/torrents/addMagnet"
    );
    assert_eq!(
        realdebrid_add_url(&TorrentSource::TorrentFile(vec![1, 2, 3])),
        "https://api.real-debrid.com/rest/1.0/torrents/addTorrent"
    );
}

#[test]
fn provider_keys_and_realdebrid_replies() {
    assert_eq!(provider_key("torbox", &Some("k".to_string())), Ok("k".to_string()));
    assert_eq!(
        provider_key("torbox", &None),
        Err(TsubasaError::Cloud { provider: "torbox".to_string(), source: CloudError::InvalidApiKey })
    );
    let rd = |source| Err(TsubasaError::Cloud { provider: "realdebrid".to_string(), source });
    assert_eq!(realdebrid_add_outcome(false, 200, "200 OK", None, "", Ok("X".to_string())), rd(CloudError::InvalidApiKey));
    assert_eq!(
        realdebrid_add_outcome(true, 429, "429 Too Many Requests", None, "", Ok("X".to_string())),
        rd(CloudError::RateLimited { retry_after_secs: 60 })
    );
    assert_eq!(
        realdebrid_add_outcome(true, 403, "403 Forbidden", None, "", Ok("X".to_string())),
        rd(CloudError::AuthFailed("HTTP 403 Forbidden".to_string()))
    );
    assert_eq!(
        realdebrid_add_outcome(true, 503, "503 Service Unavailable", None, "down", Ok("X".to_string())),
        rd(CloudError::ApiRequest("HTTP 503 Service Unavailable: down".to_string()))
    );
    assert_eq!(
        realdebrid_add_outcome(true, 400, "400 Bad Request", Some("bad_magnet".to_string()), "{}", Ok("X".to_string())),
        rd(CloudError::ApiRequest("bad_magnet".to_string()))
    );
    assert_eq!(
        realdebrid_add_outcome(true, 201, "201 Created", None, "", Ok("ABC".to_string())),
        Ok(CloudTorrentId("ABC".to_string()))
    );
    assert_eq!(
        realdebrid_add_outcome(true, 201, "201 Created", None, "", Err("eof".to_string())),
        rd(CloudError::ApiRequest("Parse error: eof".to_string()))
    );
    assert!(realdebrid_reply_error(200, "200 OK").is_none());
}

#[test]
fn torbox_replies() {
    let tb = |source| Err::<u32, _>(TsubasaError::Cloud { provider: "torbox".to_string(), source });
    let ok: Result<(bool, Option<String>, Option<String>, Option<u32>), String> = Ok((true, None, None, Some(7)));
    assert_eq!(torbox_reply(429, "429", Some("12"), Ok((true, None, None, Some(1u32))), ""), tb(CloudError::RateLimited { retry_after_secs: 12 }));
    assert_eq!(torbox_reply(429, "429", Some("soon"), Ok((true, None, None, Some(1u32))), ""), tb(CloudError::RateLimited { retry_after_secs: 30 }));
    assert_eq!(torbox_reply(429, "429", None, Ok((true, None, None, Some(1u32))), ""), tb(CloudError::RateLimited { retry_after_secs: 30 }));
    assert_eq!(torbox_reply(401, "401 Unauthorized", None, Ok((true, None, None, Some(1u32))), ""), tb(CloudError::AuthFailed("HTTP 401 Unauthorized".to_string())));
    assert_eq!(torbox_reply(200, "200 OK", None, ok, ""), Ok(7));
    assert_eq!(
        torbox_reply::<u32>(200, "200 OK", None, Err("expected value".to_string()), "oops"),
        tb(CloudError::ApiRequest("Failed to parse response: expected value — body: oops".to_string()))
    );
    assert_eq!(
        torbox_reply::<u32>(200, "200 OK", None, Ok((false, None, Some("nope".to_string()), None)), ""),
        tb(CloudError::ApiRequest("nope".to_string()))
    );
    assert_eq!(
        torbox_reply::<u32>(200, "200 OK", None, Ok((true, None, None, None)), ""),
        tb(CloudError::ApiRequest("Response contained no data".to_string()))
    );
}

#[test]
fn torbox_create_replies() {
    let tb = |source| Err(TsubasaError::Cloud { provider: "torbox".to_string(), source });
    let ok = |id| Ok((true, None, None, Some(id)));
    assert_eq!(torbox_create_reply(false, 200, "200 OK", ok(5), ""), tb(CloudError::InvalidApiKey));
    assert_eq!(torbox_create_reply(true, 429, "429", ok(5), ""), tb(CloudError::RateLimited { retry_after_secs: 30 }));
    assert_eq!(
        torbox_create_reply(true, 403, "403 Forbidden", ok(5), ""),
        tb(CloudError::AuthFailed("HTTP 403 Forbidden".to_string()))
    );
    assert_eq!(
        torbox_create_reply(true, 200, "200 OK", Err("bad json".to_string()), "<html>"),
        tb(CloudError::ApiRequest("Failed to parse createtorrent response: bad json — body: <html>".to_string()))
    );
    assert_eq!(torbox_create_reply(true, 200, "200 OK", ok(77), ""), Ok(CloudTorrentId("77".to_string())));
    assert_eq!(
        torbox_create_reply(true, 200, "200 OK", Ok((false, Some("DUPLICATE_TORRENT".to_string()), None, Some(9))), ""),
        Ok(CloudTorrentId("9".to_string()))
    );
    assert_eq!(
        torbox_create_reply(true, 200, "200 OK", Ok((false, Some("BOOM".to_string()), None, None)), ""),
        tb(CloudError::ApiRequest("Torbox API error: BOOM".to_string()))
    );
}
