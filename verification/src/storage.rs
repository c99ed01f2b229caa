//! Stored records: torrent rows, peer and tracker details, and the per-torrent
//! session files kept beside the database.

use vstd::prelude::*;

use crate::settings::schema::Ratio;
use crate::state_machine::{DownloadPolicy, TorrentState};

verus! {

/// A torrent record as stored in the database.
#[derive(Debug, Clone, PartialEq, Eq)]
pub struct TorrentRecord {
    pub id: String,
    pub info_hash: String,
    pub name: String,
    pub state: TorrentState,
    pub policy: DownloadPolicy,
    pub total_bytes: u64,
    pub downloaded_bytes: u64,
    pub uploaded_bytes: u64,
    pub save_path: String,
    pub magnet_uri: Option<String>,
    pub added_at: String,
    pub completed_at: Option<String>,
    pub download_speed_limit: u64,
    pub upload_speed_limit: u64,
    pub max_peers: u32,
    pub ratio_limit: Ratio,
    pub error_message: Option<String>,
}

/// A connected peer.
#[derive(Debug, Clone, PartialEq, Eq)]
pub struct TorrentPeerInfo {
    /// Peer address as "ip:port".
    pub address: String,
    /// Connection state, such as "live", "connecting" or "queued".
    pub state: String,
    pub downloaded_bytes: u64,
    pub uploaded_bytes: u64,
    pub connection_attempts: u32,
    pub errors: u32,
}

/// A tracker of a torrent.
#[derive(Debug, Clone, PartialEq, Eq)]
pub struct TorrentTrackerInfo {
    pub url: String,
    /// Announce status; the engine does not report it, so it reads "unknown".
    pub status: String,
}

impl TorrentTrackerInfo {
    /// A tracker whose announce status is not known.
    pub fn unknown_status(url: String) -> (r: TorrentTrackerInfo)
        ensures
            r.url == url,
            r.status@ == "unknown"@,
    {
        TorrentTrackerInfo { url, status: String::from_str("unknown") }
    }
}

/// Session data of one torrent, saved between runs.
#[derive(Debug, Clone, PartialEq, Eq)]
pub struct TorrentSession {
    pub info_hash: String,
    /// Bitfield of completed pieces.
    pub piece_bitmap: Vec<u8>,
    /// Known peer addresses, for a fast resume.
    pub peer_cache: Vec<String>,
    pub downloaded_bytes: u64,
    pub uploaded_bytes: u64,
    /// When the session was last saved.
    pub last_saved: String,
}

/// What `Path::join` gives for a directory and a relative name.
pub uninterp spec fn joined_path(dir: Seq<char>, name: Seq<char>) -> Seq<char>;

/// `std::path::Path::join`, as text. The contract names the result: the
/// separator and the treatment of absolute names are the platform's.
#[verifier::external_body]
fn path_join(dir: &str, name: &str) -> (r: String)
    ensures
        r@ == joined_path(dir@, name@),
{
    std::path::Path::new(dir).join(name).to_string_lossy().into_owned()
}

/// The name of the session file of a torrent: `<info hash>.session`.
pub open spec fn session_file_name(info_hash: Seq<char>) -> Seq<char> {
    info_hash + ".session"@
}

/// Where the session files live.
pub struct SessionManager {
    session_dir: String,
}

impl SessionManager {
    /// The session directory.
    pub closed spec fn dir(&self) -> Seq<char> {
        self.session_dir@
    }

    /// A manager for the given directory (which the caller creates).
    pub fn new(session_dir: String) -> (m: SessionManager)
        ensures
            m.dir() == session_dir@,
    {
        SessionManager { session_dir }
    }

    /// The file holding a torrent's session data.
    pub fn session_path(&self, info_hash: &str) -> (r: String)
        ensures
            r@ == joined_path(self.dir(), session_file_name(info_hash@)),
    {
        let mut name = String::from_str(info_hash);
        name.append(".session");
        path_join(self.session_dir.as_str(), name.as_str())
    }

    /// The session directory.
    pub fn session_dir(&self) -> (r: &str)
        ensures
            r@ == self.dir(),
    {
        self.session_dir.as_str()
    }
}

} // verus!
