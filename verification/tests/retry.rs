use tsubasa::error::{CloudError, DownloadError, TsubasaError};
use tsubasa::retry::{
    after_failure, backoff_delay_ms, classify_error, exhausted_error, fastrand_sample,
    is_transient_api_message, RetryConfig, RetryDecision,
};

fn cloud(source: CloudError) -> TsubasaError {
    TsubasaError::Cloud { provider: "torbox".to_string(), source }
}

#[test]
fn retry_config_presets() {
    let d = RetryConfig::default();
    assert_eq!((d.max_attempts, d.base_delay_ms, d.max_delay_ms, d.jitter), (3, 1000, 30_000, true));
    let c = RetryConfig::cloud_api();
    assert_eq!((c.max_attempts, c.base_delay_ms, c.max_delay_ms, c.jitter), (4, 2000, 60_000, true));
    let h = RetryConfig::http_download();
    assert_eq!((h.max_attempts, h.base_delay_ms, h.max_delay_ms, h.jitter), (3, 3000, 30_000, true));
}

#[test]
fn transient_messages_ignore_case() {
    assert!(is_transient_api_message("Connection reset by peer"));
    assert!(is_transient_api_message("GATEWAY TIMEOUT"));
    assert!(is_transient_api_message("HTTP 502 Bad Gateway"));
    assert!(is_transient_api_message("unexpected EOF"));
    assert!(!is_transient_api_message("Invalid API key"));
    assert!(!is_transient_api_message(""));
}

#[test]
fn classification_of_errors() {
    assert_eq!(classify_error(&cloud(CloudError::RateLimited { retry_after_secs: 30 })), Ok(Some(30)));
    assert_eq!(classify_error(&cloud(CloudError::Unavailable("x".to_string()))), Ok(None));
    assert_eq!(classify_error(&cloud(CloudError::ApiRequest("Service Unavailable".to_string()))), Ok(None));
    assert_eq!(classify_error(&cloud(CloudError::ApiRequest("bad hash".to_string()))), Err(()));
    assert_eq!(classify_error(&cloud(CloudError::AuthFailed("HTTP 401".to_string()))), Err(()));
    assert_eq!(classify_error(&cloud(CloudError::InvalidApiKey)), Err(()));
    assert_eq!(
        classify_error(&TsubasaError::Download(DownloadError::HttpFetch("connection refused".to_string()))),
        Ok(None)
    );
    assert_eq!(classify_error(&TsubasaError::Download(DownloadError::Cancelled)), Err(()));
    assert_eq!(
        classify_error(&TsubasaError::Timeout { operation: "x".to_string(), duration_ms: 10 }),
        Ok(None)
    );
    assert_eq!(classify_error(&TsubasaError::Io("disk".to_string())), Ok(None));
    assert_eq!(classify_error(&TsubasaError::Search("x".to_string())), Err(()));
}

#[test]
fn backoff_doubles_and_caps() {
    let no_jitter = RetryConfig { max_attempts: 10, base_delay_ms: 1000, max_delay_ms: 30_000, jitter: false };
    assert_eq!(backoff_delay_ms(&no_jitter, 0, 999_999), 1000);
    assert_eq!(backoff_delay_ms(&no_jitter, 1, 0), 2000);
    assert_eq!(backoff_delay_ms(&no_jitter, 4, 0), 16_000);
    assert_eq!(backoff_delay_ms(&no_jitter, 5, 0), 30_000);
    assert_eq!(backoff_delay_ms(&no_jitter, 63, 0), 30_000);
    assert_eq!(backoff_delay_ms(&no_jitter, 64, 0), 30_000);
    assert_eq!(backoff_delay_ms(&no_jitter, 1000, 0), 30_000);
    let uncapped = RetryConfig { max_attempts: 200, base_delay_ms: 1, max_delay_ms: u64::MAX, jitter: false };
    assert_eq!(backoff_delay_ms(&uncapped, 63, 0), 1u64 << 63);
    assert_eq!(backoff_delay_ms(&uncapped, 64, 0), u64::MAX);
    let zero = RetryConfig { max_attempts: 200, base_delay_ms: 0, max_delay_ms: 5, jitter: false };
    assert_eq!(backoff_delay_ms(&zero, 100, 0), 0);
}

#[test]
fn backoff_jitter_adds_up_to_half() {
    let c = RetryConfig::cloud_api();
    assert_eq!(backoff_delay_ms(&c, 0, 0), 2000);
    assert_eq!(backoff_delay_ms(&c, 0, 500_000), 2500);
    assert_eq!(backoff_delay_ms(&c, 0, 999_999), 2999);
    assert_eq!(backoff_delay_ms(&c, 10, 500_000), 75_000);
}

#[test]
fn backoff_saturates_near_max() {
    let c = RetryConfig { max_attempts: 3, base_delay_ms: u64::MAX, max_delay_ms: u64::MAX, jitter: true };
    assert_eq!(backoff_delay_ms(&c, 3, 999_999), u64::MAX);
}

#[test]
fn jitter_samples_are_deterministic() {
    assert_eq!(fastrand_sample(0), 0);
    assert_eq!(fastrand_sample(1), 269_761);
    assert_eq!(fastrand_sample(123_456_789), 589_007);
}

#[test]
fn decisions_after_failures() {
    let c = RetryConfig::cloud_api();
    let transient = TsubasaError::Io("broken".to_string());
    assert_eq!(after_failure(&c, 0, &transient, 0), RetryDecision::RetryAfterMillis(2000));
    assert_eq!(after_failure(&c, 2, &transient, 0), RetryDecision::RetryAfterMillis(8000));
    assert_eq!(after_failure(&c, 3, &transient, 0), RetryDecision::Stop);
    let limited = cloud(CloudError::RateLimited { retry_after_secs: 7 });
    assert_eq!(after_failure(&c, 1, &limited, 0), RetryDecision::RetryAfterSecs(7));
    let permanent = cloud(CloudError::QuotaExceeded);
    assert_eq!(after_failure(&c, 0, &permanent, 0), RetryDecision::Stop);
}

#[test]
fn exhausted_loop_error() {
    assert_eq!(
        exhausted_error("cloud_add_torrent"),
        TsubasaError::Internal("cloud_add_torrent: retry loop exhausted without error".to_string())
    );
}
