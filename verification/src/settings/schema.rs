//! Settings groups: each domain owns its settings. Per-torrent overrides merge
//! with global defaults at read time.

use vstd::prelude::*;

use crate::state_machine::DownloadPolicy;

verus! {

// ─── Enums ──────────────────────────────────────────────────

#[derive(Debug, Clone, Copy, PartialEq, Eq, Structural)]
pub enum ProxyType {
    NoProxy,
    Socks4,
    Socks5,
    Http,
}

#[derive(Debug, Clone, PartialEq, Eq)]
pub struct ProxyAuth {
    pub username: String,
    pub password: String,
}

#[derive(Debug, Clone, Copy, PartialEq, Eq, Structural)]
pub enum EncryptionMode {
    Forced,
    Preferred,
    Disabled,
}

#[derive(Debug, Clone, Copy, PartialEq, Eq, Structural)]
pub enum SeedingAction {
    Pause,
    Remove,
    RemoveWithFiles,
}

/// A share ratio (uploaded / downloaded) in thousandths: 2.0 is 2000.
#[derive(Debug, Clone, Copy, PartialEq, Eq, Structural)]
pub struct Ratio {
    pub thousandths: u64,
}

#[derive(Debug, Clone, PartialEq, Eq)]
pub struct SpeedSchedule {
    pub enabled: bool,
    /// 0-23
    pub start_hour: u8,
    /// 0-23
    pub end_hour: u8,
    /// 0=Sun, 1=Mon, ... 6=Sat
    pub days: Vec<u8>,
}

// ─── Settings Groups ────────────────────────────────────────

#[derive(Debug, Clone, PartialEq, Eq)]
pub struct BehaviorSettings {
    pub confirm_on_exit: bool,
    pub minimize_to_tray: bool,
    pub start_minimized: bool,
    pub single_instance: bool,
    pub locale: String,
    pub onboarding_completed: bool,
    pub theme: String,
}

impl Default for BehaviorSettings {
    fn default() -> (s: BehaviorSettings)
        ensures
            s.confirm_on_exit && s.minimize_to_tray && !s.start_minimized && s.single_instance,
            s.locale@ == "en"@,
            !s.onboarding_completed,
            s.theme@ == "black"@,
    {
        BehaviorSettings {
            confirm_on_exit: true,
            minimize_to_tray: true,
            start_minimized: false,
            single_instance: true,
            locale: String::from_str("en"),
            onboarding_completed: false,
            theme: String::from_str("black"),
        }
    }
}

#[derive(Debug, Clone, PartialEq, Eq)]
pub struct DownloadSettings {
    pub default_save_path: String,
    pub temp_path: Option<String>,
    pub create_subfolder: bool,
    pub pre_allocate_disk: bool,
    pub append_incomplete_ext: bool,
    pub auto_delete_torrent_file: bool,
    pub move_completed_path: Option<String>,
}

impl DownloadSettings {
    /// The default download settings, saving to `save_path` (the platform's
    /// download directory, which the caller looks up).
    pub fn default_with(save_path: String) -> (s: DownloadSettings)
        ensures
            s.default_save_path == save_path,
            s.temp_path is None,
            s.create_subfolder,
            !s.pre_allocate_disk && !s.append_incomplete_ext && !s.auto_delete_torrent_file,
            s.move_completed_path is None,
    {
        DownloadSettings {
            default_save_path: save_path,
            temp_path: None,
            create_subfolder: true,
            pre_allocate_disk: false,
            append_incomplete_ext: false,
            auto_delete_torrent_file: false,
            move_completed_path: None,
        }
    }
}

#[derive(Debug, Clone, PartialEq, Eq)]
pub struct ConnectionSettings {
    pub global_max_connections: u32,
    pub per_torrent_max_connections: u32,
    pub max_upload_slots_global: u32,
    pub max_upload_slots_per_torrent: u32,
    pub enable_upnp: bool,
    pub enable_natpmp: bool,
    pub listen_port: u16,
    pub bind_interface: Option<String>,
    pub enable_utp: bool,
}

impl Default for ConnectionSettings {
    fn default() -> (s: ConnectionSettings)
        ensures
            s.global_max_connections == 500,
            s.per_torrent_max_connections == 100,
            s.max_upload_slots_global == 10,
            s.max_upload_slots_per_torrent == 4,
            s.enable_upnp && s.enable_natpmp && s.enable_utp,
            s.listen_port == 6881,
            s.bind_interface is None,
    {
        ConnectionSettings {
            global_max_connections: 500,
            per_torrent_max_connections: 100,
            max_upload_slots_global: 10,
            max_upload_slots_per_torrent: 4,
            enable_upnp: true,
            enable_natpmp: true,
            listen_port: 6881,
            bind_interface: None,
            enable_utp: true,
        }
    }
}

#[derive(Debug, Clone, PartialEq, Eq)]
pub struct ProxySettings {
    pub proxy_type: ProxyType,
    pub host: String,
    pub port: u16,
    pub auth: Option<ProxyAuth>,
    pub apply_to_peers: bool,
    pub apply_to_trackers: bool,
    pub apply_to_search: bool,
    pub resolve_hostname_via_proxy: bool,
}

impl Default for ProxySettings {
    fn default() -> (s: ProxySettings)
        ensures
            s.proxy_type == ProxyType::NoProxy,
            s.host@ == Seq::<char>::empty(),
            s.port == 1080,
            s.auth is None,
            !s.apply_to_peers && !s.apply_to_trackers && !s.apply_to_search
                && !s.resolve_hostname_via_proxy,
    {
        ProxySettings {
            proxy_type: ProxyType::NoProxy,
            host: String::new(),
            port: 1080,
            auth: None,
            apply_to_peers: false,
            apply_to_trackers: false,
            apply_to_search: false,
            resolve_hostname_via_proxy: false,
        }
    }
}

#[derive(Debug, Clone, PartialEq, Eq)]
pub struct SpeedSettings {
    pub global_dl_limit: u64,
    pub global_ul_limit: u64,
    pub alt_dl_limit: u64,
    pub alt_ul_limit: u64,
    pub alt_speed_enabled: bool,
    pub alt_speed_schedule: Option<SpeedSchedule>,
    pub rate_limit_utp: bool,
    pub rate_limit_overhead: bool,
}

impl Default for SpeedSettings {
    fn default() -> (s: SpeedSettings)
        ensures
            s.global_dl_limit == 0 && s.global_ul_limit == 0,
            s.alt_dl_limit == 0 && s.alt_ul_limit == 0,
            !s.alt_speed_enabled,
            s.alt_speed_schedule is None,
            s.rate_limit_utp && !s.rate_limit_overhead,
    {
        SpeedSettings {
            global_dl_limit: 0,
            global_ul_limit: 0,
            alt_dl_limit: 0,
            alt_ul_limit: 0,
            alt_speed_enabled: false,
            alt_speed_schedule: None,
            rate_limit_utp: true,
            rate_limit_overhead: false,
        }
    }
}

#[derive(Debug, Clone, Copy, PartialEq, Eq, Structural)]
pub struct BitTorrentSettings {
    pub enable_dht: bool,
    pub enable_pex: bool,
    pub enable_lsd: bool,
    pub anonymous_mode: bool,
    pub encryption: EncryptionMode,
    pub sequential_download_default: bool,
}

impl Default for BitTorrentSettings {
    fn default() -> (s: BitTorrentSettings)
        ensures
            s == (BitTorrentSettings {
                enable_dht: true,
                enable_pex: true,
                enable_lsd: true,
                anonymous_mode: false,
                encryption: EncryptionMode::Preferred,
                sequential_download_default: false,
            }),
    {
        BitTorrentSettings {
            enable_dht: true,
            enable_pex: true,
            enable_lsd: true,
            anonymous_mode: false,
            encryption: EncryptionMode::Preferred,
            sequential_download_default: false,
        }
    }
}

#[derive(Debug, Clone, Copy, PartialEq, Eq, Structural)]
pub struct QueueSettings {
    pub max_active_downloads: u32,
    pub max_active_uploads: u32,
    pub max_active_total: u32,
    /// Bytes per second below which a downloading torrent counts as slow.
    pub slow_torrent_dl_threshold: u64,
    /// Bytes per second below which a seeding torrent counts as slow.
    pub slow_torrent_ul_threshold: u64,
    pub slow_torrent_inactive_secs: u64,
    pub exclude_slow_from_count: bool,
}

impl Default for QueueSettings {
    fn default() -> (s: QueueSettings)
        ensures
            s == (QueueSettings {
                max_active_downloads: 5,
                max_active_uploads: 5,
                max_active_total: 8,
                slow_torrent_dl_threshold: 1024,
                slow_torrent_ul_threshold: 1024,
                slow_torrent_inactive_secs: 300,
                exclude_slow_from_count: false,
            }),
    {
        QueueSettings {
            max_active_downloads: 5,
            max_active_uploads: 5,
            max_active_total: 8,
            slow_torrent_dl_threshold: 1024,
            slow_torrent_ul_threshold: 1024,
            slow_torrent_inactive_secs: 300,
            exclude_slow_from_count: false,
        }
    }
}

#[derive(Debug, Clone, Copy, PartialEq, Eq, Structural)]
pub struct SeedingSettings {
    pub global_ratio_limit: Option<Ratio>,
    pub global_time_limit_mins: Option<u64>,
    pub inactive_timeout_mins: Option<u64>,
    pub action_on_limit: SeedingAction,
}

impl Default for SeedingSettings {
    fn default() -> (s: SeedingSettings)
        ensures
            s == (SeedingSettings {
                global_ratio_limit: Some(Ratio { thousandths: 2000 }),
                global_time_limit_mins: None,
                inactive_timeout_mins: None,
                action_on_limit: SeedingAction::Pause,
            }),
    {
        SeedingSettings {
            global_ratio_limit: Some(Ratio { thousandths: 2000 }),
            global_time_limit_mins: None,
            inactive_timeout_mins: None,
            action_on_limit: SeedingAction::Pause,
        }
    }
}

#[derive(Debug, Clone, PartialEq, Eq)]
pub struct TrackerSettings {
    pub auto_append_enabled: bool,
    pub auto_append_url: Option<String>,
    pub auto_append_list: Vec<String>,
}

impl Default for TrackerSettings {
    fn default() -> (s: TrackerSettings)
        ensures
            !s.auto_append_enabled,
            s.auto_append_url matches Some(u) && u@
                == "https://raw.githubusercontent.com/ngosang/trackerslist/master/trackers_best.txt"@,
            s.auto_append_list@.len() == 0,
    {
        TrackerSettings {
            auto_append_enabled: false,
            auto_append_url: Some(
                String::from_str(
                    "https://raw.githubusercontent.com/ngosang/trackerslist/master/trackers_best.txt",
                ),
            ),
            auto_append_list: Vec::new(),
        }
    }
}

/// IP filter settings.
#[derive(Debug, Clone, PartialEq, Eq)]
pub struct IPFilterSettings {
    pub enabled: bool,
    pub blocklist_path: Option<String>,
    pub apply_to_trackers: bool,
    pub auto_update_url: Option<String>,
}

impl Default for IPFilterSettings {
    fn default() -> (s: IPFilterSettings)
        ensures
            !s.enabled,
            s.blocklist_path is None,
            !s.apply_to_trackers,
            s.auto_update_url is None,
    {
        IPFilterSettings {
            enabled: false,
            blocklist_path: None,
            apply_to_trackers: false,
            auto_update_url: None,
        }
    }
}

#[derive(Debug, Clone, PartialEq, Eq)]
pub struct SearchSettings {
    pub enabled_plugins: Vec<String>,
    pub max_results_per_plugin: u32,
    pub search_timeout_secs: u64,
    pub safe_search: bool,
}

impl Default for SearchSettings {
    fn default() -> (s: SearchSettings)
        ensures
            s.enabled_plugins@.len() == 5,
            s.enabled_plugins@[0]@ == "piratebay"@,
            s.enabled_plugins@[1]@ == "leet"@,
            s.enabled_plugins@[2]@ == "yts"@,
            s.enabled_plugins@[3]@ == "nyaa"@,
            s.enabled_plugins@[4]@ == "torrentgalaxy"@,
            s.max_results_per_plugin == 50,
            s.search_timeout_secs == 15,
            !s.safe_search,
    {
        let mut plugins: Vec<String> = Vec::new();
        plugins.push(String::from_str("piratebay"));
        plugins.push(String::from_str("leet"));
        plugins.push(String::from_str("yts"));
        plugins.push(String::from_str("nyaa"));
        plugins.push(String::from_str("torrentgalaxy"));
        SearchSettings {
            enabled_plugins: plugins,
            max_results_per_plugin: 50,
            search_timeout_secs: 15,
            safe_search: false,
        }
    }
}

#[derive(Debug, Clone, PartialEq, Eq)]
pub struct CloudSettings {
    pub torbox_api_key: Option<String>,
    pub realdebrid_api_key: Option<String>,
    pub default_policy: DownloadPolicy,
    pub cache_check_on_add: bool,
}

impl Default for CloudSettings {
    fn default() -> (s: CloudSettings)
        ensures
            s.torbox_api_key is None,
            s.realdebrid_api_key is None,
            s.default_policy == DownloadPolicy::LocalOnly,
            s.cache_check_on_add,
    {
        CloudSettings {
            torbox_api_key: None,
            realdebrid_api_key: None,
            default_policy: DownloadPolicy::LocalOnly,
            cache_check_on_add: true,
        }
    }
}

// ─── Per-Torrent Overrides ──────────────────────────────────

/// Optional per-torrent overrides that take priority over global settings.
/// `None` fields inherit from the corresponding global setting.
#[derive(Debug, Clone, PartialEq, Eq)]
pub struct TorrentOverrides {
    pub dl_limit: Option<u64>,
    pub ul_limit: Option<u64>,
    pub max_connections: Option<u32>,
    pub ratio_limit: Option<Ratio>,
    pub time_limit_mins: Option<u64>,
    pub sequential: Option<bool>,
    pub save_path: Option<String>,
    pub category: Option<String>,
    pub tags: Vec<String>,
    pub download_policy: Option<DownloadPolicy>,
}

impl Default for TorrentOverrides {
    fn default() -> (s: TorrentOverrides)
        ensures
            s.dl_limit is None && s.ul_limit is None && s.max_connections is None,
            s.ratio_limit is None && s.time_limit_mins is None && s.sequential is None,
            s.save_path is None && s.category is None && s.tags@.len() == 0,
            s.download_policy is None,
    {
        TorrentOverrides {
            dl_limit: None,
            ul_limit: None,
            max_connections: None,
            ratio_limit: None,
            time_limit_mins: None,
            sequential: None,
            save_path: None,
            category: None,
            tags: Vec::new(),
            download_policy: None,
        }
    }
}

// ─── Aggregate ──────────────────────────────────────────────

/// All settings in one struct. Used for full export/import.
#[derive(Debug, Clone, PartialEq, Eq)]
pub struct AllSettings {
    pub behavior: BehaviorSettings,
    pub downloads: DownloadSettings,
    pub connections: ConnectionSettings,
    pub proxy: ProxySettings,
    pub speed: SpeedSettings,
    pub bittorrent: BitTorrentSettings,
    pub queue: QueueSettings,
    pub seeding: SeedingSettings,
    pub tracker: TrackerSettings,
    pub ip_filter: IPFilterSettings,
    pub search: SearchSettings,
    pub cloud: CloudSettings,
}

} // verus!
