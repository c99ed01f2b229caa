//! The decisions behind the frontend's commands: adding a torrent, reaching a
//! cloud provider, and the values the commands answer with.

use vstd::prelude::*;

use crate::cloud::{get_provider, provider_named, ProviderKind, TorrentSource};
use crate::error::{error_message, CloudError, TsubasaError};
use crate::magnet::{extract_info_hash, extract_magnet_name, magnet_hash_text, magnet_name_text, decoded_or_empty};
use crate::orchestrator::{is_magnet, StartResult};
use crate::settings::legacy::AppSettings;
use crate::state_machine::{DownloadPolicy, TorrentState};
use crate::storage::TorrentRecord;
use crate::text::{all_ascii, chars_of, has_prefix, lowercase};

verus! {

/// A request to add a torrent.
#[derive(Debug, Clone)]
pub struct AddTorrentRequest {
    /// Magnet URI or torrent file path.
    pub source: String,
    /// Download directory, overriding the default.
    pub save_path: Option<String>,
    /// Download policy, overriding the default.
    pub policy: Option<DownloadPolicy>,
}

/// The answer to adding a torrent.
#[derive(Debug, Clone, PartialEq, Eq)]
pub struct AddTorrentResponse {
    pub id: String,
    pub name: String,
    pub info_hash: String,
}

/// What `Path::file_stem` gives for a path: the file name without its last
/// extension.
pub uninterp spec fn file_stem(path: Seq<char>) -> Option<Seq<char>>;

/// `std::path::Path::file_stem`, as text. The contract names the result.
#[verifier::external_body]
fn path_file_stem(path: &str) -> (r: Option<String>)
    ensures
        match r {
            Some(s) => file_stem(path@) == Some(s@),
            None => file_stem(path@) is None,
        },
{
    std::path::Path::new(path).file_stem().and_then(|s| s.to_str()).map(|s| s.to_string())
}

/// The name shown for a new torrent before its metadata is known: a magnet
/// link's display name (else "Torrent " and the id's first 8 characters), a
/// torrent file's stem (else "Unknown").
pub open spec fn preliminary_name(source: Seq<char>, id: Seq<char>) -> Seq<char> {
    if has_prefix(source, "magnet:"@) {
        match magnet_name_text(source) {
            Some(t) => decoded_or_empty(t),
            None => "Torrent "@ + id.subrange(0, 8),
        }
    } else {
        match file_stem(source) {
            Some(s) => s,
            None => "Unknown"@,
        }
    }
}

/// The info hash recorded for a new torrent before its metadata is known: a
/// magnet link's hash (lower-cased), else the id's first 16 characters.
pub open spec fn preliminary_hash(source: Seq<char>, id: Seq<char>) -> Seq<char> {
    match magnet_hash_text(source) {
        Some(t) => lowercase(t),
        None => id.subrange(0, 16),
    }
}

/// The database record of a torrent being added under the new id `id` at
/// time `now`, with the stored settings as defaults.
pub open spec fn new_record(r: TorrentRecord, req: AddTorrentRequest, id: Seq<char>, settings: AppSettings, now: Seq<char>) -> bool {
    &&& r.id@ == id
    &&& r.info_hash@ == preliminary_hash(req.source@, id)
    &&& r.name@ == preliminary_name(req.source@, id)
    &&& r.state == TorrentState::Pending
    &&& r.policy == match req.policy {
        Some(p) => p,
        None => settings.default_policy,
    }
    &&& r.total_bytes == 0 && r.downloaded_bytes == 0 && r.uploaded_bytes == 0
    &&& r.save_path@ == match req.save_path {
        Some(p) => p@,
        None => settings.download_dir@,
    }
    &&& r.magnet_uri == if has_prefix(req.source@, "magnet:"@) {
        Some(req.source)
    } else {
        None
    }
    &&& r.added_at@ == now
    &&& r.completed_at is None
    &&& r.download_speed_limit == 0 && r.upload_speed_limit == 0 && r.max_peers == 0
    &&& r.ratio_limit == settings.default_ratio_limit
    &&& r.error_message is None
}

fn copy_opt(o: &Option<String>) -> (r: Option<String>)
    ensures
        r == *o,
{
    match o {
        Some(s) => Some(s.clone()),
        None => None,
    }
}

/// The record of a torrent being added. `id` is a fresh id of at least 16
/// ASCII characters (a UUID), `now` the time of the addition.
pub fn prepare_torrent_record(req: &AddTorrentRequest, id: &str, settings: &AppSettings, now: String) -> (r:
    TorrentRecord)
    requires
        all_ascii(id@),
        id@.len() >= 16,
    ensures
        new_record(r, *req, id@, *settings, now@),
{
    let magnet = is_magnet(req.source.as_str());
    let name = if magnet {
        match extract_magnet_name(req.source.as_str()) {
            Some(n) => n,
            None => {
                let mut n = String::from_str("Torrent ");
                n.append(id.substring_char(0, 8));
                n
            },
        }
    } else {
        match path_file_stem(req.source.as_str()) {
            Some(s) => s,
            None => String::from_str("Unknown"),
        }
    };
    let info_hash = match extract_info_hash(req.source.as_str()) {
        Some(h) => h,
        None => String::from_str(id.substring_char(0, 16)),
    };
    let save_path = match &req.save_path {
        Some(p) => p.clone(),
        None => settings.download_dir.clone(),
    };
    TorrentRecord {
        id: String::from_str(id),
        info_hash,
        name,
        state: TorrentState::Pending,
        policy: match req.policy {
            Some(p) => p,
            None => settings.default_policy,
        },
        total_bytes: 0,
        downloaded_bytes: 0,
        uploaded_bytes: 0,
        save_path,
        magnet_uri: if magnet {
            Some(req.source.clone())
        } else {
            None
        },
        added_at: now,
        completed_at: None,
        download_speed_limit: 0,
        upload_speed_limit: 0,
        max_peers: 0,
        ratio_limit: settings.default_ratio_limit,
        error_message: None,
    }
}

/// The answer to adding a torrent, from its preliminary name and hash and the
/// outcome of starting it: what the start learned (when not empty) replaces
/// the preliminary values; a failed start answers with them.
pub fn add_torrent_response(id: String, name: String, info_hash: String, started: &Result<StartResult, TsubasaError>) -> (r:
    AddTorrentResponse)
    ensures
        r.id == id,
        r.name@ == match started {
            Ok(s) => if s.name@.len() == 0 {
                name@
            } else {
                s.name@
            },
            Err(_) => name@,
        },
        r.info_hash@ == match started {
            Ok(s) => if s.info_hash@.len() == 0 {
                info_hash@
            } else {
                s.info_hash@
            },
            Err(_) => info_hash@,
        },
{
    match started {
        Ok(s) => {
            let final_name = if s.name.as_str().unicode_len() == 0 {
                name
            } else {
                s.name.clone()
            };
            let final_hash = if s.info_hash.as_str().unicode_len() == 0 {
                info_hash
            } else {
                s.info_hash.clone()
            };
            AddTorrentResponse { id, name: final_name, info_hash: final_hash }
        },
        Err(_) => AddTorrentResponse { id, name, info_hash },
    }
}

/// What the add command records and announces once the start is known.
#[derive(Debug, Clone, PartialEq, Eq)]
pub struct StartFollowUp {
    /// The state the torrent's row is set to.
    pub state: TorrentState,
    /// The error message stored with the row (a failed start only).
    pub error_message: Option<String>,
    /// Announce the change from pending to downloading.
    pub announce_downloading: bool,
    /// Announce the torrent as added (a cloud-only start: the engine does not).
    pub announce_added: bool,
    /// Report the start's error as a recoverable error of this torrent.
    pub report_error: Option<String>,
}

/// The follow-up of a start: a successful one sets the row downloading,
/// announces the change, and announces the torrent when only the cloud
/// started it; a failed one sets the row errored with the error's message and
/// reports that message as a recoverable error.
pub fn start_follow_up(started: &Result<StartResult, TsubasaError>) -> (r: StartFollowUp)
    ensures
        match started {
            Ok(s) => r.state == TorrentState::Downloading && r.error_message is None && r.announce_downloading
                && r.announce_added == (!s.local_started && s.cloud_started) && r.report_error is None,
            Err(e) => r.state == TorrentState::Errored && (r.error_message matches Some(m) && m@
                == error_message(*e)) && !r.announce_downloading && !r.announce_added && (
            r.report_error matches Some(m) && m@ == error_message(*e)),
        },
{
    match started {
        Ok(s) => StartFollowUp {
            state: TorrentState::Downloading,
            error_message: None,
            announce_downloading: true,
            announce_added: announce_added(s),
            report_error: None,
        },
        Err(e) => {
            let m = e.message();
            StartFollowUp {
                state: TorrentState::Errored,
                error_message: Some(m.clone()),
                announce_downloading: false,
                announce_added: false,
                report_error: Some(m),
            }
        },
    }
}

/// Whether a started download must be announced as added by the command
/// itself: only a cloud-only start (the engine announces local ones).
pub fn announce_added(started: &StartResult) -> (r: bool)
    ensures
        r == (!started.local_started && started.cloud_started),
{
    !started.local_started && started.cloud_started
}

// ─── Cloud commands ─────────────────────────────────────────

/// The configuration and reachability of a provider.
#[derive(Debug, Clone, PartialEq, Eq)]
pub struct CloudProviderStatus {
    pub name: String,
    pub configured: bool,
    pub connected: bool,
}

/// The answer to submitting a torrent to a provider.
#[derive(Debug, Clone, PartialEq, Eq)]
pub struct CloudAddResult {
    pub cloud_id: String,
    pub provider: String,
}

/// A request to download one file from a provider's CDN.
#[derive(Debug, Clone)]
pub struct CloudDownloadRequest {
    pub url: String,
    pub filename: String,
    pub save_dir: String,
    pub torrent_id: String,
    pub provider: String,
}

/// The status of both providers: Torbox, then Real-Debrid. A provider counts
/// as connected only when configured and its account could be read.
pub fn cloud_statuses(torbox_configured: bool, torbox_reached: bool, realdebrid_configured: bool, realdebrid_reached: bool) -> (r:
    Vec<CloudProviderStatus>)
    ensures
        r@.len() == 2,
        r@[0].name@ == "Torbox"@ && r@[0].configured == torbox_configured && r@[0].connected == (
        torbox_configured && torbox_reached),
        r@[1].name@ == "Real-Debrid"@ && r@[1].configured == realdebrid_configured && r@[1].connected == (
        realdebrid_configured && realdebrid_reached),
{
    let mut r: Vec<CloudProviderStatus> = Vec::new();
    r.push(
        CloudProviderStatus {
            name: String::from_str("Torbox"),
            configured: torbox_configured,
            connected: torbox_configured && torbox_reached,
        },
    );
    r.push(
        CloudProviderStatus {
            name: String::from_str("Real-Debrid"),
            configured: realdebrid_configured,
            connected: realdebrid_configured && realdebrid_reached,
        },
    );
    r
}

/// The provider a command names, or the error for an unknown name.
pub fn provider_for_command(provider: &str) -> (r: Result<ProviderKind, TsubasaError>)
    ensures
        match provider_named(lowercase(provider@)) {
            Some(k) => r == Ok::<ProviderKind, TsubasaError>(k),
            None => r matches Err(TsubasaError::Cloud { provider: p, source: CloudError::Unavailable(m) })
                && p@ == provider@ && m@ == "Unknown provider: "@ + provider@,
        },
{
    match get_provider(provider) {
        Some(k) => Ok(k),
        None => {
            let mut m = String::from_str("Unknown provider: ");
            m.append(provider);
            Err(TsubasaError::Cloud { provider: String::from_str(provider), source: CloudError::Unavailable(m) })
        },
    }
}

/// Whether `s` is a bare info hash: 40 hexadecimal digits.
pub open spec fn is_bare_hash(s: Seq<char>) -> bool {
    s.len() == 40 && forall|i: int|
        0 <= i < s.len() ==> ('0' <= #[trigger] s[i] <= '9' || 'a' <= s[i] <= 'f' || 'A' <= s[i] <= 'F')
}

/// What a submitted source is: a bare 40-digit hex hash is an info hash;
/// anything else is taken as a magnet URI.
pub fn cloud_source(source: String) -> (r: TorrentSource)
    ensures
        is_bare_hash(source@) && !has_prefix(source@, "magnet:"@) ==> r == TorrentSource::InfoHash(source),
        !(is_bare_hash(source@) && !has_prefix(source@, "magnet:"@)) ==> r == TorrentSource::MagnetUri(source),
{
    if is_magnet(source.as_str()) {
        return TorrentSource::MagnetUri(source);
    }
    let v = chars_of(source.as_str());
    if v.len() != 40 {
        return TorrentSource::MagnetUri(source);
    }
    let mut i: usize = 0;
    while i < v.len()
        invariant
            i <= v@.len(),
            v@ == source@,
            v@.len() == 40,
            forall|j: int| 0 <= j < i ==> ('0' <= #[trigger] v@[j] <= '9' || 'a' <= v@[j] <= 'f' || 'A' <= v@[j] <= 'F'),
        decreases v@.len() - i,
    {
        let c = v[i];
        if !(('0' <= c && c <= '9') || ('a' <= c && c <= 'f') || ('A' <= c && c <= 'F')) {
            return TorrentSource::MagnetUri(source);
        }
        i = i + 1;
    }
    TorrentSource::InfoHash(source)
}

/// The magnet link a provider is sent for a source: the magnet URI itself, or
/// one built from a bare hash; a torrent file is sent as a file instead.
pub fn magnet_for_source(source: &TorrentSource) -> (r: Option<String>)
    ensures
        match *source {
            TorrentSource::MagnetUri(m) => r == Some(m),
            TorrentSource::InfoHash(h) => r matches Some(m) && m@ == "magnet:?xt=urn:btih:"@ + h@,
            TorrentSource::TorrentFile(_) => r is None,
        },
{
    match source {
        TorrentSource::MagnetUri(m) => Some(m.clone()),
        TorrentSource::InfoHash(h) => {
            let mut m = String::from_str("magnet:?xt=urn:btih:");
            m.append(h.as_str());
            Some(m)
        },
        TorrentSource::TorrentFile(_) => None,
    }
}

/// A queue position for the frontend.
#[derive(Debug, Clone, PartialEq, Eq)]
pub struct QueuePositionInfo {
    pub torrent_id: String,
    pub position: String,
}

/// What the app reports of itself.
#[derive(Debug, Clone, PartialEq, Eq)]
pub struct AppInfo {
    pub version: String,
    pub engine_ready: bool,
    pub uptime_seconds: u64,
}

impl AppInfo {
    /// The app's report, from its version, whether the engine runs and the
    /// seconds since start.
    pub fn new(version: String, engine_ready: bool, uptime_seconds: u64) -> (r: AppInfo)
        ensures
            r == (AppInfo { version, engine_ready, uptime_seconds }),
    {
        AppInfo { version, engine_ready, uptime_seconds }
    }
}

} // verus!
