//! The flat (first-generation) settings record, and its mapping to and from the
//! grouped settings: migration on first load and the compatibility layer for
//! the old settings commands.

use vstd::prelude::*;

use crate::settings::schema::{
    AllSettings, BehaviorSettings, BitTorrentSettings, CloudSettings, ConnectionSettings,
    DownloadSettings, IPFilterSettings, ProxySettings, QueueSettings, Ratio, SearchSettings,
    SeedingSettings, SpeedSettings, TrackerSettings,
};
use crate::state_machine::DownloadPolicy;

verus! {

/// Settings stored as a plain key/value pair.
#[derive(Debug, Clone)]
pub struct SettingRecord {
    pub key: String,
    pub value: String,
}

/// The flat global settings record of the first settings schema.
#[derive(Debug, Clone, PartialEq, Eq)]
pub struct AppSettings {
    pub download_dir: String,
    pub default_policy: DownloadPolicy,
    pub global_download_limit: u64,
    pub global_upload_limit: u64,
    pub max_active_torrents: u32,
    pub max_active_downloads: u32,
    pub max_active_seeds: u32,
    pub default_ratio_limit: Ratio,
    pub enable_dht: bool,
    pub enable_pex: bool,
    pub listen_port: u16,
    pub torbox_api_key: Option<String>,
    pub realdebrid_api_key: Option<String>,
    pub onboarding_completed: bool,
    pub theme: String,
}

fn copy_opt(o: &Option<String>) -> (r: Option<String>)
    ensures
        r == *o,
{
    match o {
        Some(s) => Some(s.clone()),
        None => None,
    }
}

impl AppSettings {
    /// The default flat settings, downloading to `download_dir` (the platform's
    /// download directory, which the caller looks up).
    pub fn default_with(download_dir: String) -> (s: AppSettings)
        ensures
            s.download_dir == download_dir,
            s.default_policy == DownloadPolicy::LocalOnly,
            s.global_download_limit == 0 && s.global_upload_limit == 0,
            s.max_active_torrents == 10 && s.max_active_downloads == 5 && s.max_active_seeds == 5,
            s.default_ratio_limit == (Ratio { thousandths: 2000 }),
            s.enable_dht && s.enable_pex,
            s.listen_port == 6881,
            s.torbox_api_key is None && s.realdebrid_api_key is None,
            !s.onboarding_completed,
            s.theme@ == "dark"@,
    {
        AppSettings {
            download_dir,
            default_policy: DownloadPolicy::LocalOnly,
            global_download_limit: 0,
            global_upload_limit: 0,
            max_active_torrents: 10,
            max_active_downloads: 5,
            max_active_seeds: 5,
            default_ratio_limit: Ratio { thousandths: 2000 },
            enable_dht: true,
            enable_pex: true,
            listen_port: 6881,
            torbox_api_key: None,
            realdebrid_api_key: None,
            onboarding_completed: false,
            theme: String::from_str("dark"),
        }
    }
}

/// The grouped settings after the flat record `old` is written over `base`:
/// each flat field replaces the grouped field it maps to, all else stays.
pub open spec fn legacy_overlay(base: AllSettings, old: AppSettings) -> AllSettings {
    AllSettings {
        behavior: BehaviorSettings {
            onboarding_completed: old.onboarding_completed,
            theme: old.theme,
            ..base.behavior
        },
        downloads: DownloadSettings { default_save_path: old.download_dir, ..base.downloads },
        connections: ConnectionSettings { listen_port: old.listen_port, ..base.connections },
        speed: SpeedSettings {
            global_dl_limit: old.global_download_limit,
            global_ul_limit: old.global_upload_limit,
            ..base.speed
        },
        bittorrent: BitTorrentSettings {
            enable_dht: old.enable_dht,
            enable_pex: old.enable_pex,
            ..base.bittorrent
        },
        queue: QueueSettings {
            max_active_downloads: old.max_active_downloads,
            max_active_uploads: old.max_active_seeds,
            max_active_total: old.max_active_torrents,
            ..base.queue
        },
        seeding: SeedingSettings { global_ratio_limit: Some(old.default_ratio_limit), ..base.seeding },
        cloud: CloudSettings {
            torbox_api_key: old.torbox_api_key,
            realdebrid_api_key: old.realdebrid_api_key,
            default_policy: old.default_policy,
            ..base.cloud
        },
        ..base
    }
}

/// The flat record the grouped settings `s` read as; a missing global ratio
/// limit reads as 2.0.
pub open spec fn legacy_view(s: AllSettings) -> AppSettings {
    AppSettings {
        download_dir: s.downloads.default_save_path,
        default_policy: s.cloud.default_policy,
        global_download_limit: s.speed.global_dl_limit,
        global_upload_limit: s.speed.global_ul_limit,
        max_active_torrents: s.queue.max_active_total,
        max_active_downloads: s.queue.max_active_downloads,
        max_active_seeds: s.queue.max_active_uploads,
        default_ratio_limit: match s.seeding.global_ratio_limit {
            Some(r) => r,
            None => Ratio { thousandths: 2000 },
        },
        enable_dht: s.bittorrent.enable_dht,
        enable_pex: s.bittorrent.enable_pex,
        listen_port: s.connections.listen_port,
        torbox_api_key: s.cloud.torbox_api_key,
        realdebrid_api_key: s.cloud.realdebrid_api_key,
        onboarding_completed: s.behavior.onboarding_completed,
        theme: s.behavior.theme,
    }
}

/// Write the flat record `old` over the grouped settings `base`.
pub fn from_legacy_settings(base: AllSettings, old: &AppSettings) -> (r: AllSettings)
    ensures
        r == legacy_overlay(base, *old),
{
    let AllSettings {
        behavior,
        downloads,
        connections,
        proxy,
        speed,
        bittorrent,
        queue,
        seeding,
        tracker,
        ip_filter,
        search,
        cloud,
    } = base;
    let behavior = BehaviorSettings {
        onboarding_completed: old.onboarding_completed,
        theme: old.theme.clone(),
        ..behavior
    };
    let downloads = DownloadSettings { default_save_path: old.download_dir.clone(), ..downloads };
    let connections = ConnectionSettings { listen_port: old.listen_port, ..connections };
    let speed = SpeedSettings {
        global_dl_limit: old.global_download_limit,
        global_ul_limit: old.global_upload_limit,
        ..speed
    };
    let bittorrent = BitTorrentSettings {
        enable_dht: old.enable_dht,
        enable_pex: old.enable_pex,
        ..bittorrent
    };
    let queue = QueueSettings {
        max_active_downloads: old.max_active_downloads,
        max_active_uploads: old.max_active_seeds,
        max_active_total: old.max_active_torrents,
        ..queue
    };
    let seeding = SeedingSettings { global_ratio_limit: Some(old.default_ratio_limit), ..seeding };
    let cloud = CloudSettings {
        torbox_api_key: copy_opt(&old.torbox_api_key),
        realdebrid_api_key: copy_opt(&old.realdebrid_api_key),
        default_policy: old.default_policy,
        ..cloud
    };
    AllSettings {
        behavior,
        downloads,
        connections,
        proxy,
        speed,
        bittorrent,
        queue,
        seeding,
        tracker,
        ip_filter,
        search,
        cloud,
    }
}

/// The flat record the grouped settings read as.
pub fn to_legacy_settings(s: &AllSettings) -> (r: AppSettings)
    ensures
        r == legacy_view(*s),
{
    AppSettings {
        download_dir: s.downloads.default_save_path.clone(),
        default_policy: s.cloud.default_policy,
        global_download_limit: s.speed.global_dl_limit,
        global_upload_limit: s.speed.global_ul_limit,
        max_active_torrents: s.queue.max_active_total,
        max_active_downloads: s.queue.max_active_downloads,
        max_active_seeds: s.queue.max_active_uploads,
        default_ratio_limit: match s.seeding.global_ratio_limit {
            Some(r) => r,
            None => Ratio { thousandths: 2000 },
        },
        enable_dht: s.bittorrent.enable_dht,
        enable_pex: s.bittorrent.enable_pex,
        listen_port: s.connections.listen_port,
        torbox_api_key: copy_opt(&s.cloud.torbox_api_key),
        realdebrid_api_key: copy_opt(&s.cloud.realdebrid_api_key),
        onboarding_completed: s.behavior.onboarding_completed,
        theme: s.behavior.theme.clone(),
    }
}

impl AllSettings {
    /// Every group at its default, downloading to `save_path` (the platform's
    /// download directory, which the caller looks up).
    pub fn default_with(save_path: String) -> (s: AllSettings)
        ensures
            s.downloads.default_save_path == save_path,
            s.behavior.theme@ == "black"@,
            s.connections.listen_port == 6881,
            s.queue.max_active_downloads == 5 && s.queue.max_active_uploads == 5
                && s.queue.max_active_total == 8,
            s.seeding.global_ratio_limit == Some(Ratio { thousandths: 2000 }),
            s.bittorrent.enable_dht && s.bittorrent.enable_pex,
            s.speed.global_dl_limit == 0 && s.speed.global_ul_limit == 0,
            s.cloud.torbox_api_key is None && s.cloud.realdebrid_api_key is None,
            !s.behavior.onboarding_completed,
            s.cloud.default_policy == DownloadPolicy::LocalOnly,
    {
        AllSettings {
            behavior: BehaviorSettings::default(),
            downloads: DownloadSettings::default_with(save_path),
            connections: ConnectionSettings::default(),
            proxy: ProxySettings::default(),
            speed: SpeedSettings::default(),
            bittorrent: BitTorrentSettings::default(),
            queue: QueueSettings::default(),
            seeding: SeedingSettings::default(),
            tracker: TrackerSettings::default(),
            ip_filter: IPFilterSettings::default(),
            search: SearchSettings::default(),
            cloud: CloudSettings::default(),
        }
    }
}

/// The grouped settings a first start produces: the flat record written over
/// the defaults where one was stored, else the defaults (`defaults` is what
/// `AllSettings::default_with` gives for the platform's download directory).
pub fn migrate_from_v1(old: Option<AppSettings>, defaults: AllSettings) -> (r: AllSettings)
    ensures
        match old {
            Some(o) => r == legacy_overlay(defaults, o),
            None => r == defaults,
        },
{
    match old {
        Some(o) => from_legacy_settings(defaults, &o),
        None => defaults,
    }
}

/// Reading the flat record back after writing it gives the same record.
pub proof fn lemma_legacy_round_trip(base: AllSettings, old: AppSettings)
    ensures
        legacy_view(legacy_overlay(base, old)) == old,
{
}

/// Writing back the flat record that grouped settings read as changes nothing,
/// provided a global ratio limit is set.
pub proof fn lemma_legacy_write_back(s: AllSettings)
    requires
        s.seeding.global_ratio_limit is Some,
    ensures
        legacy_overlay(s, legacy_view(s)) == s,
{
}

/// Groups that the flat record does not reach (proxy, tracker, ip filter,
/// search) are never touched by it.
pub proof fn lemma_legacy_leaves_other_groups(base: AllSettings, old: AppSettings)
    ensures
        legacy_overlay(base, old).proxy == base.proxy,
        legacy_overlay(base, old).tracker == base.tracker,
        legacy_overlay(base, old).ip_filter == base.ip_filter,
        legacy_overlay(base, old).search == base.search,
{
}

} // verus!
