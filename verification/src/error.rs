//! Error hierarchy shared by every subsystem.

use vstd::prelude::*;

use crate::text::{decimal_string, decimal_text};

verus! {

/// Torrent engine specific errors.
#[derive(Debug, Clone, PartialEq, Eq)]
pub enum EngineError {
    SessionInit(String),
    InvalidSource(String),
    TorrentNotFound(String),
    PeerConnection(String),
    TrackerAnnounce(String),
    PieceVerification { piece_index: u32 },
    DiskIo(String),
    MetadataFetch(String),
    Operation(String),
}

/// Cloud/debrid provider errors.
#[derive(Debug, Clone, PartialEq, Eq)]
pub enum CloudError {
    AuthFailed(String),
    ApiRequest(String),
    RateLimited { retry_after_secs: u64 },
    NotCached,
    DownloadFailed(String),
    InvalidApiKey,
    QuotaExceeded,
    Unavailable(String),
}

/// Database errors (the storage layer's messages are carried as text).
#[derive(Debug, Clone, PartialEq, Eq)]
pub enum DatabaseError {
    Sqlite(String),
    Migration(String),
    NotFound(String),
    Constraint(String),
}

/// Download orchestration errors.
#[derive(Debug, Clone, PartialEq, Eq)]
pub enum DownloadError {
    NoPath,
    HttpFetch(String),
    FileWrite(String),
    ChecksumMismatch,
    Cancelled,
}

/// Top-level application error type. Every subsystem error funnels through here.
#[derive(Debug, Clone, PartialEq, Eq)]
pub enum TsubasaError {
    Engine(EngineError),
    Cloud { provider: String, source: CloudError },
    Database(DatabaseError),
    InvalidTransition { from: String, to: String },
    /// An operation that ran out of time; the duration is in milliseconds.
    Timeout { operation: String, duration_ms: u64 },
    Download(DownloadError),
    Search(String),
    Config(String),
    Settings(String),
    /// An I/O failure, carried as its message.
    Io(String),
    /// A (de)serialization failure, carried as its message.
    Serialization(String),
    Internal(String),
}

// ─── Messages ───────────────────────────────────────────────

/// The message of an engine error.
pub open spec fn engine_message(e: EngineError) -> Seq<char> {
    match e {
        EngineError::SessionInit(m) => "Failed to initialize torrent session: "@ + m@,
        EngineError::InvalidSource(m) => "Invalid torrent source: "@ + m@,
        EngineError::TorrentNotFound(m) => "Torrent not found: "@ + m@,
        EngineError::PeerConnection(m) => "Peer connection failed: "@ + m@,
        EngineError::TrackerAnnounce(m) => "Tracker announce failed: "@ + m@,
        EngineError::PieceVerification { piece_index } => "Piece verification failed for piece "@
            + decimal_text(piece_index as nat),
        EngineError::DiskIo(m) => "Disk I/O error: "@ + m@,
        EngineError::MetadataFetch(m) => "Metadata fetch failed: "@ + m@,
        EngineError::Operation(m) => "Engine operation error: "@ + m@,
    }
}

/// The message of a cloud provider error.
pub open spec fn cloud_message(e: CloudError) -> Seq<char> {
    match e {
        CloudError::AuthFailed(m) => "Authentication failed: "@ + m@,
        CloudError::ApiRequest(m) => "API request failed: "@ + m@,
        CloudError::RateLimited { retry_after_secs } => "Rate limited, retry after "@ + decimal_text(
            retry_after_secs as nat,
        ) + "s"@,
        CloudError::NotCached => "Torrent not cached on cloud"@,
        CloudError::DownloadFailed(m) => "Cloud download failed: "@ + m@,
        CloudError::InvalidApiKey => "Invalid API key"@,
        CloudError::QuotaExceeded => "Quota exceeded"@,
        CloudError::Unavailable(m) => "Provider unavailable: "@ + m@,
    }
}

/// The message of a database error.
pub open spec fn database_message(e: DatabaseError) -> Seq<char> {
    match e {
        DatabaseError::Sqlite(m) => "SQLite error: "@ + m@,
        DatabaseError::Migration(m) => "Migration failed: "@ + m@,
        DatabaseError::NotFound(m) => "Record not found: "@ + m@,
        DatabaseError::Constraint(m) => "Constraint violation: "@ + m@,
    }
}

/// The message of a download error.
pub open spec fn download_message(e: DownloadError) -> Seq<char> {
    match e {
        DownloadError::NoPath => "No download path available for policy"@,
        DownloadError::HttpFetch(m) => "HTTP download failed: "@ + m@,
        DownloadError::FileWrite(m) => "File write failed: "@ + m@,
        DownloadError::ChecksumMismatch => "Checksum mismatch"@,
        DownloadError::Cancelled => "Cancelled"@,
    }
}

/// The three-digit text of `n < 1000`, without trailing zeros.
pub open spec fn millis_fraction(n: nat) -> Seq<char> {
    if n % 100 == 0 {
        decimal_text(n / 100)
    } else if n % 10 == 0 {
        (if n < 100 { "0"@ } else { seq![] }) + decimal_text(n / 10)
    } else {
        (if n < 10 { "00"@ } else if n < 100 { "0"@ } else { seq![] }) + decimal_text(n)
    }
}

/// How a whole number of milliseconds reads as a duration ("1.5s", "250ms",
/// "0ns"), as `Duration`'s debug form writes it.
pub open spec fn duration_text(ms: nat) -> Seq<char> {
    if ms >= 1000 {
        decimal_text(ms / 1000) + (if ms % 1000 == 0 {
            seq![]
        } else {
            "."@ + millis_fraction(ms % 1000)
        }) + "s"@
    } else if ms > 0 {
        decimal_text(ms) + "ms"@
    } else {
        "0ns"@
    }
}

/// The message of an application error.
pub open spec fn error_message(e: TsubasaError) -> Seq<char> {
    match e {
        TsubasaError::Engine(x) => "Torrent engine error: "@ + engine_message(x),
        TsubasaError::Cloud { provider, source } => "Cloud provider error ("@ + provider@ + "): "@
            + cloud_message(source),
        TsubasaError::Database(x) => "Database error: "@ + database_message(x),
        TsubasaError::InvalidTransition { from, to } => "Invalid state transition: "@ + from@ + " -> "@ + to@,
        TsubasaError::Timeout { operation, duration_ms } => "Operation timed out after "@ + duration_text(
            duration_ms as nat,
        ) + ": "@ + operation@,
        TsubasaError::Download(x) => "Download error: "@ + download_message(x),
        TsubasaError::Search(m) => "Search error: "@ + m@,
        TsubasaError::Config(m) => "Configuration error: "@ + m@,
        TsubasaError::Settings(m) => "Settings error: "@ + m@,
        TsubasaError::Io(m) => "IO error: "@ + m@,
        TsubasaError::Serialization(m) => "Serialization error: "@ + m@,
        TsubasaError::Internal(m) => m@,
    }
}

fn joined(prefix: &str, m: &String) -> (r: String)
    ensures
        r@ == prefix@ + m@,
{
    let mut s = String::from_str(prefix);
    s.append(m.as_str());
    s
}

impl EngineError {
    /// The error's message.
    pub fn message(&self) -> (r: String)
        ensures
            r@ == engine_message(*self),
    {
        match self {
            EngineError::SessionInit(m) => joined("Failed to initialize torrent session: ", m),
            EngineError::InvalidSource(m) => joined("Invalid torrent source: ", m),
            EngineError::TorrentNotFound(m) => joined("Torrent not found: ", m),
            EngineError::PeerConnection(m) => joined("Peer connection failed: ", m),
            EngineError::TrackerAnnounce(m) => joined("Tracker announce failed: ", m),
            EngineError::PieceVerification { piece_index } => {
                let mut s = String::from_str("Piece verification failed for piece ");
                s.append(decimal_string(*piece_index as u64).as_str());
                s
            },
            EngineError::DiskIo(m) => joined("Disk I/O error: ", m),
            EngineError::MetadataFetch(m) => joined("Metadata fetch failed: ", m),
            EngineError::Operation(m) => joined("Engine operation error: ", m),
        }
    }
}

impl CloudError {
    /// The error's message.
    pub fn message(&self) -> (r: String)
        ensures
            r@ == cloud_message(*self),
    {
        match self {
            CloudError::AuthFailed(m) => joined("Authentication failed: ", m),
            CloudError::ApiRequest(m) => joined("API request failed: ", m),
            CloudError::RateLimited { retry_after_secs } => {
                let mut s = String::from_str("Rate limited, retry after ");
                s.append(decimal_string(*retry_after_secs).as_str());
                s.append("s");
                s
            },
            CloudError::NotCached => String::from_str("Torrent not cached on cloud"),
            CloudError::DownloadFailed(m) => joined("Cloud download failed: ", m),
            CloudError::InvalidApiKey => String::from_str("Invalid API key"),
            CloudError::QuotaExceeded => String::from_str("Quota exceeded"),
            CloudError::Unavailable(m) => joined("Provider unavailable: ", m),
        }
    }
}

impl DatabaseError {
    /// The error's message.
    pub fn message(&self) -> (r: String)
        ensures
            r@ == database_message(*self),
    {
        match self {
            DatabaseError::Sqlite(m) => joined("SQLite error: ", m),
            DatabaseError::Migration(m) => joined("Migration failed: ", m),
            DatabaseError::NotFound(m) => joined("Record not found: ", m),
            DatabaseError::Constraint(m) => joined("Constraint violation: ", m),
        }
    }
}

impl DownloadError {
    /// The error's message.
    pub fn message(&self) -> (r: String)
        ensures
            r@ == download_message(*self),
    {
        match self {
            DownloadError::NoPath => String::from_str("No download path available for policy"),
            DownloadError::HttpFetch(m) => joined("HTTP download failed: ", m),
            DownloadError::FileWrite(m) => joined("File write failed: ", m),
            DownloadError::ChecksumMismatch => String::from_str("Checksum mismatch"),
            DownloadError::Cancelled => String::from_str("Cancelled"),
        }
    }
}

/// The text of a whole number of milliseconds as a duration.
pub fn duration_string(ms: u64) -> (r: String)
    ensures
        r@ == duration_text(ms as nat),
{
    if ms >= 1000 {
        let mut s = decimal_string(ms / 1000);
        let frac = ms % 1000;
        if frac != 0 {
            s.append(".");
            if frac % 100 == 0 {
                s.append(decimal_string(frac / 100).as_str());
            } else if frac % 10 == 0 {
                if frac < 100 {
                    s.append("0");
                } else {
                    proof {
                        assert(s@ + Seq::<char>::empty() =~= s@);
                    }
                }
                s.append(decimal_string(frac / 10).as_str());
            } else {
                if frac < 10 {
                    s.append("00");
                } else if frac < 100 {
                    s.append("0");
                } else {
                    proof {
                        assert(s@ + Seq::<char>::empty() =~= s@);
                    }
                }
                s.append(decimal_string(frac).as_str());
            }
        } else {
            proof {
                assert(s@ + Seq::<char>::empty() =~= s@);
            }
        }
        s.append("s");
        s
    } else if ms > 0 {
        let mut s = decimal_string(ms);
        s.append("ms");
        s
    } else {
        String::from_str("0ns")
    }
}

impl TsubasaError {
    /// The error's message, as the frontend shows it.
    pub fn message(&self) -> (r: String)
        ensures
            r@ == error_message(*self),
    {
        match self {
            TsubasaError::Engine(x) => joined("Torrent engine error: ", &x.message()),
            TsubasaError::Cloud { provider, source } => {
                let mut s = String::from_str("Cloud provider error (");
                s.append(provider.as_str());
                s.append("): ");
                s.append(source.message().as_str());
                s
            },
            TsubasaError::Database(x) => joined("Database error: ", &x.message()),
            TsubasaError::InvalidTransition { from, to } => {
                let mut s = String::from_str("Invalid state transition: ");
                s.append(from.as_str());
                s.append(" -> ");
                s.append(to.as_str());
                s
            },
            TsubasaError::Timeout { operation, duration_ms } => {
                let mut s = String::from_str("Operation timed out after ");
                s.append(duration_string(*duration_ms).as_str());
                s.append(": ");
                s.append(operation.as_str());
                s
            },
            TsubasaError::Download(x) => joined("Download error: ", &x.message()),
            TsubasaError::Search(m) => joined("Search error: ", m),
            TsubasaError::Config(m) => joined("Configuration error: ", m),
            TsubasaError::Settings(m) => joined("Settings error: ", m),
            TsubasaError::Io(m) => joined("IO error: ", m),
            TsubasaError::Serialization(m) => joined("Serialization error: ", m),
            TsubasaError::Internal(m) => m.clone(),
        }
    }
}

} // verus!
