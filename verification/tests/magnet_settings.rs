use tsubasa::settings::legacy::SettingRecord;
use tsubasa::settings::store::{parse_ratio, ratio_string, settings_from_records, settings_records};
use tsubasa::magnet::{extract_info_hash, extract_info_hash_from_source, extract_magnet_name};
use tsubasa::settings::legacy::{from_legacy_settings, migrate_from_v1, to_legacy_settings, AppSettings};
use tsubasa::settings::schema::{
    AllSettings, BehaviorSettings, ConnectionSettings, DownloadSettings, ProxySettings, ProxyType, Ratio,
    SearchSettings, SeedingSettings, TorrentOverrides, TrackerSettings,
};
use tsubasa::state_machine::DownloadPolicy;

#[test]
fn info_hash_from_magnet_is_lowercased() {
    let m = "magnet:?xt=urn:btih:ABCDEF0123456789ABCDEF0123456789ABCDEF01&dn=Some+Name";
    assert_eq!(
        extract_info_hash(m),
        Some("abcdef0123456789abcdef0123456789abcdef01".to_string())
    );
    assert_eq!(extract_info_hash_from_source(m), extract_info_hash(m));
}

#[test]
fn info_hash_absent_cases() {
    assert_eq!(extract_info_hash("/home/u/file.torrent"), None);
    assert_eq!(extract_info_hash("magnet:?dn=x&tr=udp://t"), None);
    // The part holding the hash need not be the first.
    assert_eq!(extract_info_hash("magnet:?dn=x&xt=urn:btih:FF"), Some("ff".to_string()));
}

#[test]
fn magnet_name_is_decoded() {
    assert_eq!(
        extract_magnet_name("magnet:?xt=urn:btih:aa&dn=Big%20Buck%20Bunny&tr=x"),
        Some("Big Buck Bunny".to_string())
    );
    assert_eq!(extract_magnet_name("magnet:?xt=urn:btih:aa&dn=plain+name"), Some("plain+name".to_string()));
    assert_eq!(extract_magnet_name("magnet:?xt=urn:btih:aa"), None);
    // Invalid UTF-8 after decoding gives the empty name.
    assert_eq!(extract_magnet_name("magnet:?dn=%FF"), Some(String::new()));
}

fn legacy() -> AppSettings {
    AppSettings {
        download_dir: "/data/dl".to_string(),
        default_policy: DownloadPolicy::Hybrid,
        global_download_limit: 100,
        global_upload_limit: 50,
        max_active_torrents: 7,
        max_active_downloads: 3,
        max_active_seeds: 2,
        default_ratio_limit: Ratio { thousandths: 1500 },
        enable_dht: false,
        enable_pex: true,
        listen_port: 7000,
        torbox_api_key: Some("key".to_string()),
        realdebrid_api_key: None,
        onboarding_completed: true,
        theme: "light".to_string(),
    }
}

#[test]
fn legacy_defaults() {
    let a = AppSettings::default_with("/home/u/Downloads".to_string());
    assert_eq!(a.download_dir, "/home/u/Downloads");
    assert_eq!(a.default_policy, DownloadPolicy::LocalOnly);
    assert_eq!((a.max_active_torrents, a.max_active_downloads, a.max_active_seeds), (10, 5, 5));
    assert_eq!(a.default_ratio_limit, Ratio { thousandths: 2000 });
    assert_eq!(a.listen_port, 6881);
    assert_eq!(a.theme, "dark");
}

#[test]
fn migration_maps_flat_fields() {
    let defaults = AllSettings::default_with("/home/u/Downloads".to_string());
    let s = migrate_from_v1(Some(legacy()), defaults.clone());
    assert_eq!(s.downloads.default_save_path, "/data/dl");
    assert_eq!(s.cloud.default_policy, DownloadPolicy::Hybrid);
    assert_eq!((s.speed.global_dl_limit, s.speed.global_ul_limit), (100, 50));
    assert_eq!((s.queue.max_active_total, s.queue.max_active_downloads, s.queue.max_active_uploads), (7, 3, 2));
    assert_eq!(s.seeding.global_ratio_limit, Some(Ratio { thousandths: 1500 }));
    assert!(!s.bittorrent.enable_dht);
    assert_eq!(s.connections.listen_port, 7000);
    assert_eq!(s.cloud.torbox_api_key, Some("key".to_string()));
    assert!(s.behavior.onboarding_completed);
    assert_eq!(s.behavior.theme, "light");
    // Untouched fields keep their defaults.
    assert_eq!(s.connections.global_max_connections, 500);
    assert_eq!(s.proxy, ProxySettings::default());
    assert_eq!(s.search, SearchSettings::default());
    assert_eq!(s.tracker, TrackerSettings::default());
    let none = migrate_from_v1(None, defaults.clone());
    assert_eq!(none, defaults);
}

#[test]
fn legacy_round_trip() {
    let base = AllSettings::default_with("/x".to_string());
    let old = legacy();
    let back = to_legacy_settings(&from_legacy_settings(base, &old));
    assert_eq!(back, old);
}

#[test]
fn legacy_view_without_ratio_reads_two() {
    let mut s = AllSettings::default_with("/x".to_string());
    s.seeding.global_ratio_limit = None;
    assert_eq!(to_legacy_settings(&s).default_ratio_limit, Ratio { thousandths: 2000 });
}

#[test]
fn schema_defaults() {
    let b = BehaviorSettings::default();
    assert_eq!(b.theme, "black");
    assert_eq!(b.locale, "en");
    let d = DownloadSettings::default_with("/dl".to_string());
    assert!(d.create_subfolder);
    let c = ConnectionSettings::default();
    assert_eq!(c.listen_port, 6881);
    let p = ProxySettings::default();
    assert_eq!(p.proxy_type, ProxyType::NoProxy);
    assert_eq!(p.port, 1080);
    assert_eq!(SeedingSettings::default().global_ratio_limit, Some(Ratio { thousandths: 2000 }));
    assert_eq!(SearchSettings::default().enabled_plugins.len(), 5);
    assert!(TorrentOverrides::default().tags.is_empty());
}

fn row(k: &str, v: &str) -> SettingRecord {
    SettingRecord { key: k.to_string(), value: v.to_string() }
}

#[test]
fn ratio_texts() {
    assert_eq!(ratio_string(Ratio { thousandths: 2000 }), "2");
    assert_eq!(ratio_string(Ratio { thousandths: 1500 }), "1.5");
    assert_eq!(ratio_string(Ratio { thousandths: 125 }), "0.125");
    assert_eq!(ratio_string(Ratio { thousandths: 10 }), "0.01");
    assert_eq!(parse_ratio("2"), Some(Ratio { thousandths: 2000 }));
    assert_eq!(parse_ratio("1.5"), Some(Ratio { thousandths: 1500 }));
    assert_eq!(parse_ratio("+.25"), Some(Ratio { thousandths: 250 }));
    assert_eq!(parse_ratio("3."), Some(Ratio { thousandths: 3000 }));
    assert_eq!(parse_ratio("0.12345"), Some(Ratio { thousandths: 123 }));
    assert_eq!(parse_ratio("."), None);
    assert_eq!(parse_ratio(""), None);
    assert_eq!(parse_ratio("-1"), None);
    assert_eq!(parse_ratio("1.2.3"), None);
    assert_eq!(parse_ratio("abc"), None);
}

#[test]
fn saved_settings_read_back() {
    let mut s = AppSettings::default_with("/data/dl".to_string());
    s.default_policy = DownloadPolicy::Hybrid;
    s.global_download_limit = 123456;
    s.max_active_seeds = 7;
    s.default_ratio_limit = Ratio { thousandths: 1250 };
    s.enable_pex = false;
    s.listen_port = 51413;
    s.torbox_api_key = Some("tb-key".to_string());
    s.onboarding_completed = true;
    s.theme = "light".to_string();
    let rows = settings_records(&s);
    assert_eq!(rows.len(), 14);
    assert_eq!(rows[1].key, "default_policy");
    assert_eq!(rows[1].value, "hybrid");
    assert_eq!(rows[7].value, "1.25");
    assert_eq!(rows[9].value, "false");
    let back = settings_from_records(AppSettings::default_with("/elsewhere".to_string()), &rows);
    assert_eq!(back, s);
}

#[test]
fn unreadable_setting_values_fall_back() {
    let defaults = AppSettings::default_with("/d".to_string());
    let rows = vec![
        row("max_active_torrents", "many"),
        row("global_upload_limit", "-5"),
        row("listen_port", "70000"),
        row("default_ratio_limit", "inf"),
        row("enable_dht", "yes"),
        row("default_policy", "cloud_only"),
        row("realdebrid_api_key", "rd"),
        row("theme", "solarized"),
        row("theme", "ignored"),
    ];
    let r = settings_from_records(defaults, &rows);
    assert_eq!(r.max_active_torrents, 10);
    assert_eq!(r.global_upload_limit, 0);
    assert_eq!(r.listen_port, 6881);
    assert_eq!(r.default_ratio_limit, Ratio { thousandths: 2000 });
    assert!(!r.enable_dht);
    assert!(r.enable_pex);
    assert_eq!(r.default_policy, DownloadPolicy::CloudOnly);
    assert_eq!(r.realdebrid_api_key, Some("rd".to_string()));
    assert_eq!(r.torbox_api_key, None);
    assert_eq!(r.theme, "solarized");
    assert_eq!(r.download_dir, "/d");
}
