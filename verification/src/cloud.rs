//! Cloud (debrid) providers: the values exchanged with Torbox and Real-Debrid,
//! and the decisions taken on their replies. The HTTP exchanges themselves are
//! made by the caller, which hands over the fields of each reply.

use vstd::prelude::*;

use crate::error::{CloudError, DownloadError, TsubasaError};
use crate::ip_filter::blocklist::{parse_u64_text, u64_parse};
use crate::text::{chars_of, find_last, split_on};
use crate::text::{decimal_string, decimal_text, lowercase, same_text, to_lowercase, to_uppercase, uppercase};

verus! {

/// Unique identifier for a torrent on a cloud provider.
#[derive(Debug, Clone, PartialEq, Eq)]
pub struct CloudTorrentId(pub String);

impl CloudTorrentId {
    /// A copy of this id.
    pub fn duplicate(&self) -> (r: CloudTorrentId)
        ensures
            r == *self,
    {
        CloudTorrentId(self.0.clone())
    }
}

/// Status of a torrent on a cloud provider.
#[derive(Debug, Clone, PartialEq, Eq)]
pub enum CloudStatus {
    /// Queued on the provider.
    Queued,
    /// The provider is downloading it; progress in hundredths of a percent
    /// (0 to 10000).
    Downloading { progress_bp: u32 },
    /// Fully downloaded by the provider.
    Completed,
    /// Cached (instantly available).
    Cached,
    /// The download failed on the provider's side.
    Failed { reason: String },
    /// A status this client does not know.
    Unknown,
}

/// A cloud status as contracts see it: the failure reason as text.
pub enum StatusView {
    Queued,
    Downloading(u32),
    Completed,
    Cached,
    Failed(Seq<char>),
    Unknown,
}

impl CloudStatus {
    /// This status with its reason taken as text.
    pub open spec fn view(self) -> StatusView {
        match self {
            CloudStatus::Queued => StatusView::Queued,
            CloudStatus::Downloading { progress_bp } => StatusView::Downloading(progress_bp),
            CloudStatus::Completed => StatusView::Completed,
            CloudStatus::Cached => StatusView::Cached,
            CloudStatus::Failed { reason } => StatusView::Failed(reason@),
            CloudStatus::Unknown => StatusView::Unknown,
        }
    }
}

/// A direct download link from the provider's CDN.
#[derive(Debug, Clone, PartialEq, Eq)]
pub struct DirectLink {
    pub filename: String,
    pub url: String,
    pub size_bytes: u64,
}

/// Cloud provider account information.
#[derive(Debug, Clone, PartialEq, Eq)]
pub struct AccountInfo {
    pub provider: String,
    pub username: String,
    pub plan: String,
    pub expiry: Option<String>,
    pub storage_used: u64,
    pub storage_total: u64,
    pub points_used: Option<u64>,
    pub points_total: Option<u64>,
}

/// Source of a torrent for cloud submission.
#[derive(Debug, Clone)]
pub enum TorrentSource {
    MagnetUri(String),
    InfoHash(String),
    TorrentFile(Vec<u8>),
}

/// Result of downloading one cloud file to disk.
#[derive(Debug, Clone, PartialEq, Eq)]
pub struct CloudDownloadResult {
    pub filename: String,
    pub save_path: String,
    pub total_bytes: u64,
}

/// The providers this client knows.
#[derive(Debug, Clone, Copy, PartialEq, Eq, Structural)]
pub enum ProviderKind {
    Torbox,
    RealDebrid,
}

// ─── Provider lookup ────────────────────────────────────────

/// The provider a (case-insensitive) name designates.
pub open spec fn provider_named(lower: Seq<char>) -> Option<ProviderKind> {
    if lower == "torbox"@ {
        Some(ProviderKind::Torbox)
    } else if lower == "realdebrid"@ || lower == "real-debrid"@ || lower == "real_debrid"@ {
        Some(ProviderKind::RealDebrid)
    } else {
        None
    }
}

/// The provider a name designates, ignoring case: "torbox", or "realdebrid",
/// "real-debrid", "real_debrid".
pub fn get_provider(name: &str) -> (r: Option<ProviderKind>)
    ensures
        r == provider_named(lowercase(name@)),
{
    let lower = to_lowercase(name);
    provider_by_lower_name(lower.as_str())
}

/// The provider a lower-cased name designates.
pub fn provider_by_lower_name(lower: &str) -> (r: Option<ProviderKind>)
    ensures
        r == provider_named(lower@),
{
    if same_text(lower, "torbox") {
        Some(ProviderKind::Torbox)
    } else if same_text(lower, "realdebrid") || same_text(lower, "real-debrid") || same_text(
        lower,
        "real_debrid",
    ) {
        Some(ProviderKind::RealDebrid)
    } else {
        None
    }
}

/// The display names of the configured providers, Torbox first.
pub fn configured_providers(torbox_configured: bool, realdebrid_configured: bool) -> (r: Vec<&'static str>)
    ensures
        r@.len() == (if torbox_configured { 1int } else { 0 }) + (if realdebrid_configured { 1int } else { 0 }),
        torbox_configured ==> r@[0]@ == "Torbox"@,
        realdebrid_configured ==> r@[r@.len() - 1]@ == "Real-Debrid"@,
{
    let mut names: Vec<&'static str> = Vec::new();
    if torbox_configured {
        names.push("Torbox");
    }
    if realdebrid_configured {
        names.push("Real-Debrid");
    }
    names
}

// ─── Reply decisions shared by both providers ───────────────

/// Map an HTTP status (with its status line, such as "401 Unauthorized") to the
/// provider error it means, if any.
pub fn check_http_status(status: u16, status_line: &str, retry_after_secs: u64) -> (r: Option<CloudError>)
    ensures
        match r {
            Some(CloudError::RateLimited { retry_after_secs: s }) => status == 429 && s == retry_after_secs,
            Some(CloudError::AuthFailed(m)) => (status == 401 || status == 403) && m@ == "HTTP "@
                + status_line@,
            Some(_) => false,
            None => status != 429 && status != 401 && status != 403,
        },
{
    if status == 429 {
        Some(CloudError::RateLimited { retry_after_secs })
    } else if status == 401 || status == 403 {
        let mut m = String::from_str("HTTP ");
        m.append(status_line);
        Some(CloudError::AuthFailed(m))
    } else {
        None
    }
}

/// An error of the named provider.
fn provider_error(provider: &str, source: CloudError) -> (e: TsubasaError)
    ensures
        e matches TsubasaError::Cloud { provider: p, source: c } && p@ == provider@ && c == source,
{
    TsubasaError::Cloud { provider: String::from_str(provider), source }
}

/// The API key of a provider, or the error that no key is set; every request
/// asks for the key first and is not sent without one.
pub fn provider_key(provider: &str, key: &Option<String>) -> (r: Result<String, TsubasaError>)
    ensures
        match *key {
            Some(k) => r == Ok::<String, TsubasaError>(k),
            None => r matches Err(TsubasaError::Cloud { provider: p, source: CloudError::InvalidApiKey })
                && p@ == provider@,
        },
{
    match key {
        Some(k) => Ok(k.clone()),
        None => Err(provider_error(provider, CloudError::InvalidApiKey)),
    }
}

/// Whether an HTTP status is a success (2xx).
pub open spec fn is_success(status: u16) -> bool {
    200 <= status && status < 300
}

/// The error a Real-Debrid reply status means on every endpoint: a rate limit
/// (to retry after 60 seconds) on 429, an authentication failure on 401/403.
pub fn realdebrid_reply_error(status: u16, status_line: &str) -> (r: Option<TsubasaError>)
    ensures
        status == 429 ==> (r matches Some(TsubasaError::Cloud { provider, source: CloudError::RateLimited {
            retry_after_secs,
        } }) && provider@ == "realdebrid"@ && retry_after_secs == 60),
        (status == 401 || status == 403) ==> (r matches Some(TsubasaError::Cloud {
            provider,
            source: CloudError::AuthFailed(m),
        }) && provider@ == "realdebrid"@ && m@ == "HTTP "@ + status_line@),
        status != 429 && status != 401 && status != 403 ==> r is None,
{
    match check_http_status(status, status_line, 60) {
        Some(c) => Some(provider_error("realdebrid", c)),
        None => None,
    }
}

/// The outcome of submitting a torrent to Real-Debrid (`addMagnet` or
/// `addTorrent`): no request without a key; then the reply's status decides
/// (rate limit, authentication, any other failure with the reply's error text);
/// a successful reply gives the new torrent's id, or the error that its body
/// did not parse (`reply_id` is the parsed id or the parser's message). The
/// reply to the `selectFiles` request that follows is not consulted: a failure
/// there does not fail the submission.
pub fn realdebrid_add_outcome(
    key_set: bool,
    status: u16,
    status_line: &str,
    parsed_error: Option<String>,
    body: &str,
    reply_id: Result<String, String>,
) -> (r: Result<CloudTorrentId, TsubasaError>)
    ensures
        !key_set ==> (r matches Err(TsubasaError::Cloud { provider, source: CloudError::InvalidApiKey })
            && provider@ == "realdebrid"@),
        key_set && status == 429 ==> (r matches Err(TsubasaError::Cloud { provider, source: CloudError::RateLimited {
            retry_after_secs,
        } }) && provider@ == "realdebrid"@ && retry_after_secs == 60),
        key_set && (status == 401 || status == 403) ==> (r matches Err(TsubasaError::Cloud {
            provider,
            source: CloudError::AuthFailed(m),
        }) && provider@ == "realdebrid"@ && m@ == "HTTP "@ + status_line@),
        key_set && status != 429 && status != 401 && status != 403 && !is_success(status) ==> (r matches Err(
            TsubasaError::Cloud { provider, source: CloudError::ApiRequest(m) },
        ) && provider@ == "realdebrid"@ && m@ == match parsed_error {
            Some(e) => e@,
            None => "HTTP "@ + status_line@ + ": "@ + body@,
        }),
        key_set && is_success(status) ==> match reply_id {
            Ok(id) => r matches Ok(c) && c.0 == id,
            Err(e) => r matches Err(TsubasaError::Cloud { provider, source: CloudError::ApiRequest(m) })
                && provider@ == "realdebrid"@ && m@ == "Parse error: "@ + e@,
        },
{
    if !key_set {
        return Err(provider_error("realdebrid", CloudError::InvalidApiKey));
    }
    if let Some(e) = realdebrid_reply_error(status, status_line) {
        return Err(e);
    }
    if !(200 <= status && status < 300) {
        return Err(provider_error("realdebrid", CloudError::ApiRequest(realdebrid_error_message(parsed_error, status_line, body))));
    }
    match reply_id {
        Ok(id) => Ok(CloudTorrentId(id)),
        Err(e) => {
            let mut m = String::from_str("Parse error: ");
            m.append(e.as_str());
            Err(provider_error("realdebrid", CloudError::ApiRequest(m)))
        },
    }
}

/// How long Torbox asks to wait on a rate limit: its `retry-after` header
/// read as whole seconds, else 30 seconds.
pub open spec fn torbox_retry_after(header: Option<Seq<char>>) -> u64 {
    match header {
        Some(h) => match u64_parse(h) {
            Ok(n) => n,
            Err(_) => 30,
        },
        None => 30,
    }
}

/// The outcome of a Torbox reply: a rate limit (waiting as `retry-after`
/// says, else 30 seconds) on 429, an authentication failure on 401/403;
/// otherwise a body that does not parse is an API error naming the parser's
/// message and the body, and a parsed envelope gives its data, or its error.
/// `parsed` is the envelope's `success`, `error`, `detail` and `data`, or the
/// parser's message.
pub fn torbox_reply<T>(
    status: u16,
    status_line: &str,
    retry_after: Option<&str>,
    parsed: Result<(bool, Option<String>, Option<String>, Option<T>), String>,
    body: &str,
) -> (r: Result<T, TsubasaError>)
    ensures
        status == 429 ==> (r matches Err(TsubasaError::Cloud { provider, source: CloudError::RateLimited {
            retry_after_secs,
        } }) && provider@ == "torbox"@ && retry_after_secs == torbox_retry_after(
            match retry_after {
                Some(h) => Some(h@),
                None => None,
            },
        )),
        (status == 401 || status == 403) ==> (r matches Err(TsubasaError::Cloud {
            provider,
            source: CloudError::AuthFailed(m),
        }) && provider@ == "torbox"@ && m@ == "HTTP "@ + status_line@),
        status != 429 && status != 401 && status != 403 ==> match parsed {
            Err(e) => r matches Err(TsubasaError::Cloud { provider, source: CloudError::ApiRequest(m) })
                && provider@ == "torbox"@ && m@ == "Failed to parse response: "@ + e@ + " — body: "@ + body@,
            Ok((success, error, detail, data)) => if success && data is Some {
                r == Ok::<T, TsubasaError>(data->0)
            } else {
                r matches Err(TsubasaError::Cloud { provider, source: CloudError::ApiRequest(m) })
                    && provider@ == "torbox"@ && m@ == if success {
                    "Response contained no data"@
                } else {
                    match error {
                        Some(e) => e@,
                        None => match detail {
                            Some(d) => d@,
                            None => "Unknown API error"@,
                        },
                    }
                }
            },
        },
{
    if status == 429 {
        let secs: u64 = match retry_after {
            Some(h) => {
                let v = chars_of(h);
                assert(v@.subrange(0, v@.len() as int) =~= v@);
                match parse_u64_text(&v, 0, v.len()) {
                    Ok(n) => n,
                    Err(_) => 30,
                }
            },
            None => 30,
        };
        return Err(provider_error("torbox", CloudError::RateLimited { retry_after_secs: secs }));
    }
    if let Some(c) = check_http_status(status, status_line, 30) {
        return Err(provider_error("torbox", c));
    }
    match parsed {
        Err(e) => {
            let mut m = String::from_str("Failed to parse response: ");
            m.append(e.as_str());
            m.append(" — body: ");
            m.append(body);
            Err(provider_error("torbox", CloudError::ApiRequest(m)))
        },
        Ok((success, error, detail, data)) => match torbox_envelope(success, error, detail, data) {
            Ok(d) => Ok(d),
            Err(c) => Err(provider_error("torbox", c)),
        },
    }
}

fn copy_text(s: &String) -> (r: String)
    ensures
        r == *s,
{
    s.clone()
}

// ─── Torbox ─────────────────────────────────────────────────

/// What a Torbox `download_state` means.
pub open spec fn torbox_status_of(state: Option<Seq<char>>, progress_bp: u32) -> StatusView {
    match state {
        None => StatusView::Unknown,
        Some(s) => if s == "cached"@ {
            StatusView::Cached
        } else if s == "completed"@ || s == "uploading"@ {
            StatusView::Completed
        } else if s == "downloading"@ || s == "metaDL"@ || s == "compressing"@ {
            StatusView::Downloading(progress_bp)
        } else if s == "queued"@ || s == "stalled (no seeds)"@ || s == "paused"@ {
            StatusView::Queued
        } else if s == "error"@ || s == "dead"@ {
            StatusView::Failed("Torrent failed on cloud provider"@)
        } else {
            StatusView::Unknown
        },
    }
}

/// The status a Torbox torrent is in, from its `download_state` and its
/// progress (in hundredths of a percent).
pub fn torbox_status(state: Option<&str>, progress_bp: u32) -> (r: CloudStatus)
    ensures
        r.view() == torbox_status_of(
            match state {
                Some(s) => Some(s@),
                None => None,
            },
            progress_bp,
        ),
{
    match state {
        None => CloudStatus::Unknown,
        Some(s) => if same_text(s, "cached") {
            CloudStatus::Cached
        } else if same_text(s, "completed") || same_text(s, "uploading") {
            CloudStatus::Completed
        } else if same_text(s, "downloading") || same_text(s, "metaDL") || same_text(s, "compressing") {
            CloudStatus::Downloading { progress_bp }
        } else if same_text(s, "queued") || same_text(s, "stalled (no seeds)") || same_text(s, "paused") {
            CloudStatus::Queued
        } else if same_text(s, "error") || same_text(s, "dead") {
            CloudStatus::Failed { reason: String::from_str("Torrent failed on cloud provider") }
        } else {
            CloudStatus::Unknown
        },
    }
}

/// The name of a Torbox plan number.
pub open spec fn torbox_plan_of(plan: Option<i32>) -> Seq<char> {
    match plan {
        Some(0) => "Free"@,
        Some(1) => "Essential"@,
        Some(2) => "Pro"@,
        Some(3) => "Standard"@,
        _ => "Unknown"@,
    }
}

/// The name of a Torbox plan number.
pub fn torbox_plan_name(plan: Option<i32>) -> (r: &'static str)
    ensures
        r@ == torbox_plan_of(plan),
{
    match plan {
        Some(0) => "Free",
        Some(1) => "Essential",
        Some(2) => "Pro",
        Some(3) => "Standard",
        _ => "Unknown",
    }
}

/// The account information a Torbox user record gives.
pub fn torbox_account(email: Option<String>, plan: Option<i32>, premium_expires_at: Option<String>) -> (r:
    AccountInfo)
    ensures
        r.provider@ == "Torbox"@,
        r.username@ == match email {
            Some(e) => e@,
            None => "Unknown"@,
        },
        r.plan@ == torbox_plan_of(plan),
        r.expiry == premium_expires_at,
        r.storage_used == 0 && r.storage_total == 0,
        r.points_used is None && r.points_total is None,
{
    AccountInfo {
        provider: String::from_str("Torbox"),
        username: match email {
            Some(e) => e,
            None => String::from_str("Unknown"),
        },
        plan: String::from_str(torbox_plan_name(plan)),
        expiry: premium_expires_at,
        storage_used: 0,
        storage_total: 0,
        points_used: None,
        points_total: None,
    }
}

/// The decimal text of a signed number.
pub open spec fn signed_decimal_text(n: int) -> Seq<char> {
    if n < 0 {
        seq!['-'] + decimal_text((-n) as nat)
    } else {
        decimal_text(n as nat)
    }
}

/// The decimal text of a signed number (what `n.to_string()` gives).
pub fn signed_decimal_string(n: i64) -> (r: String)
    ensures
        r@ == signed_decimal_text(n as int),
{
    if n < 0 {
        let magnitude: u64 = ((-(n + 1)) as u64) + 1;
        let mut s = String::from_str("-");
        s.append(decimal_string(magnitude).as_str());
        proof {
            reveal_strlit("-");
        }
        s
    } else {
        decimal_string(n as u64)
    }
}

/// A file inside a Torbox torrent; `name` is the full path and `short_name`
/// the file name alone.
#[derive(Debug, Clone, PartialEq, Eq)]
pub struct TorboxFile {
    pub id: i64,
    pub name: Option<String>,
    pub short_name: Option<String>,
    pub size: Option<u64>,
}

/// The name a Torbox file is saved under.
pub open spec fn torbox_display_name(f: TorboxFile) -> Seq<char> {
    match f.short_name {
        Some(s) => s@,
        None => match f.name {
            Some(n) => n@,
            None => "file_"@ + signed_decimal_text(f.id as int),
        },
    }
}

impl TorboxFile {
    /// The best display name: the short name, else the full name, else
    /// `file_<id>`.
    pub fn display_name(&self) -> (r: String)
        ensures
            r@ == torbox_display_name(*self),
    {
        match &self.short_name {
            Some(s) => copy_text(s),
            None => match &self.name {
                Some(n) => copy_text(n),
                None => {
                    let mut s = String::from_str("file_");
                    s.append(signed_decimal_string(self.id).as_str());
                    s
                },
            },
        }
    }

    /// The download link of this file, given the URL the provider issued for it.
    pub fn to_link(&self, url: String) -> (r: DirectLink)
        ensures
            r.filename@ == torbox_display_name(*self),
            r.url == url,
            r.size_bytes == match self.size {
                Some(s) => s,
                None => 0,
            },
    {
        DirectLink {
            filename: self.display_name(),
            url,
            size_bytes: match self.size {
                Some(s) => s,
                None => 0,
            },
        }
    }
}

/// The outcome of a Torbox reply envelope: its data on success, else an API
/// error with the reply's error (or detail) text.
pub fn torbox_envelope<T>(success: bool, error: Option<String>, detail: Option<String>, data: Option<T>) -> (r:
    Result<T, CloudError>)
    ensures
        success && data is Some ==> r == Ok::<T, CloudError>(data->0),
        success && data is None ==> (r matches Err(CloudError::ApiRequest(m)) && m@
            == "Response contained no data"@),
        !success ==> (r matches Err(CloudError::ApiRequest(m)) && m@ == match error {
            Some(e) => e@,
            None => match detail {
                Some(d) => d@,
                None => "Unknown API error"@,
            },
        }),
{
    if !success {
        let msg = match error {
            Some(e) => e,
            None => match detail {
                Some(d) => d,
                None => String::from_str("Unknown API error"),
            },
        };
        return Err(CloudError::ApiRequest(msg));
    }
    match data {
        Some(d) => Ok(d),
        None => Err(CloudError::ApiRequest(String::from_str("Response contained no data"))),
    }
}

/// Whether a Torbox error code says the torrent is already there.
pub open spec fn is_duplicate(error: Option<String>) -> bool {
    error matches Some(e) && e@ == "DUPLICATE_TORRENT"@
}

/// The outcome of a Torbox `createtorrent` reply: the new torrent's id; on a
/// duplicate, the id of the torrent already there; else an API error.
pub fn torbox_create_outcome(
    success: bool,
    error: Option<String>,
    detail: Option<String>,
    torrent_id: Option<i64>,
) -> (r: Result<CloudTorrentId, CloudError>)
    ensures
        success && torrent_id is Some ==> (r matches Ok(id) && id.0@ == signed_decimal_text(
            torrent_id->0 as int,
        )),
        success && torrent_id is None ==> (r matches Err(CloudError::ApiRequest(m)) && m@
            == "createtorrent succeeded but data was empty"@),
        !success && is_duplicate(error) && torrent_id is Some ==> (r matches Ok(id) && id.0@
            == signed_decimal_text(torrent_id->0 as int)),
        !success && !(is_duplicate(error) && torrent_id is Some) ==> (r matches Err(
            CloudError::ApiRequest(m),
        ) && m@ == match detail {
            Some(d) => d@,
            None => "Torbox API error: "@ + match error {
                Some(e) => e@,
                None => Seq::<char>::empty(),
            },
        }),
{
    if success {
        return match torrent_id {
            Some(id) => Ok(CloudTorrentId(signed_decimal_string(id))),
            None => Err(CloudError::ApiRequest(String::from_str("createtorrent succeeded but data was empty"))),
        };
    }
    let is_duplicate = match &error {
        Some(e) => same_text(e.as_str(), "DUPLICATE_TORRENT"),
        None => false,
    };
    if is_duplicate {
        if let Some(id) = torrent_id {
            return Ok(CloudTorrentId(signed_decimal_string(id)));
        }
    }
    let msg = match detail {
        Some(d) => d,
        None => {
            let mut m = String::from_str("Torbox API error: ");
            match &error {
                Some(e) => m.append(e.as_str()),
                None => {
                    proof {
                        reveal_strlit("");
                    }
                    m.append("")
                },
            }
            m
        },
    };
    Err(CloudError::ApiRequest(msg))
}

/// The outcome of submitting a torrent to Torbox (`createtorrent`): no
/// request without a key; a 429 is a rate limit with a fixed 30-second wait
/// (the header is not read); 401/403 is an authentication failure; a body
/// that does not parse is an API error naming the parser's message and the
/// body; a parsed reply decides as `torbox_create_outcome` says. `parsed` is
/// the reply's `success`, `error`, `detail` and `data.torrent_id`, or the
/// parser's message.
pub fn torbox_create_reply(
    key_set: bool,
    status: u16,
    status_line: &str,
    parsed: Result<(bool, Option<String>, Option<String>, Option<i64>), String>,
    body: &str,
) -> (r: Result<CloudTorrentId, TsubasaError>)
    ensures
        !key_set ==> (r matches Err(TsubasaError::Cloud { provider, source: CloudError::InvalidApiKey })
            && provider@ == "torbox"@),
        key_set && status == 429 ==> (r matches Err(TsubasaError::Cloud { provider, source: CloudError::RateLimited {
            retry_after_secs,
        } }) && provider@ == "torbox"@ && retry_after_secs == 30),
        key_set && (status == 401 || status == 403) ==> (r matches Err(TsubasaError::Cloud {
            provider,
            source: CloudError::AuthFailed(m),
        }) && provider@ == "torbox"@ && m@ == "HTTP "@ + status_line@),
        key_set && status != 429 && status != 401 && status != 403 ==> match parsed {
            Err(e) => r matches Err(TsubasaError::Cloud { provider, source: CloudError::ApiRequest(m) })
                && provider@ == "torbox"@ && m@ == "Failed to parse createtorrent response: "@ + e@
                + " — body: "@ + body@,
            Ok((success, error, detail, torrent_id)) => {
                &&& success && torrent_id is Some ==> (r matches Ok(id) && id.0@ == signed_decimal_text(
                    torrent_id->0 as int,
                ))
                &&& success && torrent_id is None ==> (r matches Err(TsubasaError::Cloud {
                    provider,
                    source: CloudError::ApiRequest(m),
                }) && provider@ == "torbox"@ && m@ == "createtorrent succeeded but data was empty"@)
                &&& !success && is_duplicate(error) && torrent_id is Some ==> (r matches Ok(id) && id.0@
                    == signed_decimal_text(torrent_id->0 as int))
                &&& !success && !(is_duplicate(error) && torrent_id is Some) ==> (r matches Err(
                    TsubasaError::Cloud { provider, source: CloudError::ApiRequest(m) },
                ) && provider@ == "torbox"@ && m@ == match detail {
                    Some(d) => d@,
                    None => "Torbox API error: "@ + match error {
                        Some(e) => e@,
                        None => Seq::<char>::empty(),
                    },
                })
            },
        },
{
    if !key_set {
        return Err(provider_error("torbox", CloudError::InvalidApiKey));
    }
    if let Some(c) = check_http_status(status, status_line, 30) {
        return Err(provider_error("torbox", c));
    }
    match parsed {
        Err(e) => {
            let mut m = String::from_str("Failed to parse createtorrent response: ");
            m.append(e.as_str());
            m.append(" — body: ");
            m.append(body);
            Err(provider_error("torbox", CloudError::ApiRequest(m)))
        },
        Ok((success, error, detail, torrent_id)) => match torbox_create_outcome(success, error, detail, torrent_id) {
            Ok(id) => Ok(id),
            Err(c) => Err(provider_error("torbox", c)),
        },
    }
}

// ─── Real-Debrid ────────────────────────────────────────────

/// What a Real-Debrid torrent `status` means.
pub open spec fn realdebrid_status_of(state: Option<Seq<char>>, progress_bp: u32) -> StatusView {
    match state {
        None => StatusView::Unknown,
        Some(s) => if s == "downloaded"@ {
            StatusView::Completed
        } else if s == "downloading"@ || s == "compressing"@ || s == "uploading"@ {
            StatusView::Downloading(progress_bp)
        } else if s == "queued"@ || s == "magnet_conversion"@ || s == "waiting_files_selection"@ {
            StatusView::Queued
        } else if s == "error"@ || s == "virus"@ || s == "dead"@ || s == "magnet_error"@ {
            StatusView::Failed("Real-Debrid status: "@ + s)
        } else {
            StatusView::Unknown
        },
    }
}

/// The status a Real-Debrid torrent is in, from its `status` and its progress
/// (in hundredths of a percent).
pub fn realdebrid_status(state: Option<&str>, progress_bp: u32) -> (r: CloudStatus)
    ensures
        r.view() == realdebrid_status_of(
            match state {
                Some(s) => Some(s@),
                None => None,
            },
            progress_bp,
        ),
{
    match state {
        None => CloudStatus::Unknown,
        Some(s) => if same_text(s, "downloaded") {
            CloudStatus::Completed
        } else if same_text(s, "downloading") || same_text(s, "compressing") || same_text(s, "uploading") {
            CloudStatus::Downloading { progress_bp }
        } else if same_text(s, "queued") || same_text(s, "magnet_conversion") || same_text(
            s,
            "waiting_files_selection",
        ) {
            CloudStatus::Queued
        } else if same_text(s, "error") || same_text(s, "virus") || same_text(s, "dead") || same_text(
            s,
            "magnet_error",
        ) {
            let mut m = String::from_str("Real-Debrid status: ");
            m.append(s);
            CloudStatus::Failed { reason: m }
        } else {
            CloudStatus::Unknown
        },
    }
}

/// The message of a failed Real-Debrid reply: the `error` field of its body
/// where the body parses, else "HTTP <status line>: <body>".
pub fn realdebrid_error_message(parsed_error: Option<String>, status_line: &str, body: &str) -> (r: String)
    ensures
        r@ == match parsed_error {
            Some(e) => e@,
            None => "HTTP "@ + status_line@ + ": "@ + body@,
        },
{
    match parsed_error {
        Some(e) => e,
        None => {
            let mut m = String::from_str("HTTP ");
            m.append(status_line);
            m.append(": ");
            m.append(body);
            m
        },
    }
}

/// The download link an unrestricted Real-Debrid link gives, if it carries a
/// download URL.
pub fn realdebrid_link(filename: Option<String>, download: Option<String>, filesize: Option<u64>) -> (r:
    Option<DirectLink>)
    ensures
        download is None ==> r is None,
        download is Some ==> (r matches Some(l) && l.url == download->0 && l.filename@ == match filename {
            Some(f) => f@,
            None => "unknown"@,
        } && l.size_bytes == match filesize {
            Some(s) => s,
            None => 0,
        }),
{
    match download {
        None => None,
        Some(url) => Some(
            DirectLink {
                filename: match filename {
                    Some(f) => f,
                    None => String::from_str("unknown"),
                },
                url,
                size_bytes: match filesize {
                    Some(s) => s,
                    None => 0,
                },
            },
        ),
    }
}

/// The account information a Real-Debrid user record gives; a negative point
/// count wraps to its 64-bit two's complement value.
pub fn realdebrid_account(
    username: Option<String>,
    account_type: Option<String>,
    expiration: Option<String>,
    points: Option<i64>,
) -> (r: AccountInfo)
    ensures
        r.provider@ == "Real-Debrid"@,
        r.username@ == match username {
            Some(u) => u@,
            None => "Unknown"@,
        },
        r.plan@ == match account_type {
            Some(t) => t@,
            None => "unknown"@,
        },
        r.expiry == expiration,
        r.storage_used == 0 && r.storage_total == 0,
        r.points_used == match points {
            Some(p) => Some(p as u64),
            None => None,
        },
        r.points_total is None,
{
    AccountInfo {
        provider: String::from_str("Real-Debrid"),
        username: match username {
            Some(u) => u,
            None => String::from_str("Unknown"),
        },
        plan: match account_type {
            Some(t) => t,
            None => String::from_str("unknown"),
        },
        expiry: expiration,
        storage_used: 0,
        storage_total: 0,
        points_used: match points {
            Some(p) => Some(p as u64),
            None => None,
        },
        points_total: None,
    }
}

// ─── Request URLs ───────────────────────────────────────────

/// The base of every Torbox API request.
pub open spec fn torbox_base() -> Seq<char> {
    "https://api.torbox.app/v1/api"@
}

/// The base of every Real-Debrid API request.
pub open spec fn realdebrid_base() -> Seq<char> {
    "https://api.real-debrid.com/rest/1.0"@
}

/// The Torbox listing of one torrent, bypassing the provider's cache.
pub fn torbox_info_url(id: &CloudTorrentId) -> (r: String)
    ensures
        r@ == torbox_base() + "/torrents/mylist?bypass_cache=true&id="@ + id.0@,
{
    let mut u = String::from_str("https://api.torbox.app/v1/api/torrents/mylist?bypass_cache=true&id=");
    u.append(id.0.as_str());
    proof {
        reveal_strlit("https://api.torbox.app/v1/api");
        reveal_strlit("/torrents/mylist?bypass_cache=true&id=");
        reveal_strlit("https://api.torbox.app/v1/api/torrents/mylist?bypass_cache=true&id=");
        assert(torbox_base() + "/torrents/mylist?bypass_cache=true&id="@
            =~= "https://api.torbox.app/v1/api/torrents/mylist?bypass_cache=true&id="@);
    }
    u
}

/// The Torbox request for one file's download link.
pub fn torbox_file_link_url(token: &str, id: &CloudTorrentId, file_id: i64) -> (r: String)
    ensures
        r@ == torbox_base() + "/torrents/requestdl?token="@ + token@ + "&torrent_id="@ + id.0@ + "&file_id="@
            + signed_decimal_text(file_id as int) + "&zip_link=false"@,
{
    let mut u = String::from_str("https://api.torbox.app/v1/api/torrents/requestdl?token=");
    u.append(token);
    u.append("&torrent_id=");
    u.append(id.0.as_str());
    u.append("&file_id=");
    u.append(signed_decimal_string(file_id).as_str());
    u.append("&zip_link=false");
    proof {
        reveal_strlit("https://api.torbox.app/v1/api");
        reveal_strlit("/torrents/requestdl?token=");
        reveal_strlit("https://api.torbox.app/v1/api/torrents/requestdl?token=");
        assert(torbox_base() + "/torrents/requestdl?token="@
            =~= "https://api.torbox.app/v1/api/torrents/requestdl?token="@);
    }
    u
}

/// The Torbox cache check for one info hash.
pub fn torbox_cached_url(info_hash: &str) -> (r: String)
    ensures
        r@ == torbox_base() + "/torrents/checkcached?hash="@ + info_hash@ + "&format=list&list_files=false"@,
{
    let mut u = String::from_str("https://api.torbox.app/v1/api/torrents/checkcached?hash=");
    u.append(info_hash);
    u.append("&format=list&list_files=false");
    proof {
        reveal_strlit("https://api.torbox.app/v1/api");
        reveal_strlit("/torrents/checkcached?hash=");
        reveal_strlit("https://api.torbox.app/v1/api/torrents/checkcached?hash=");
        assert(torbox_base() + "/torrents/checkcached?hash="@
            =~= "https://api.torbox.app/v1/api/torrents/checkcached?hash="@);
    }
    u
}

/// The Real-Debrid torrent info of one torrent.
pub fn realdebrid_info_url(id: &CloudTorrentId) -> (r: String)
    ensures
        r@ == realdebrid_base() + "/torrents/info/"@ + id.0@,
{
    let mut u = String::from_str("https://api.real-debrid.com/rest/1.0/torrents/info/");
    u.append(id.0.as_str());
    proof {
        reveal_strlit("https://api.real-debrid.com/rest/1.0");
        reveal_strlit("/torrents/info/");
        reveal_strlit("https://api.real-debrid.com/rest/1.0/torrents/info/");
        assert(realdebrid_base() + "/torrents/info/"@ =~= "https://api.real-debrid.com/rest/1.0/torrents/info/"@);
    }
    u
}

/// Where Real-Debrid is sent a new torrent: magnets and hashes go to
/// `addMagnet`, a torrent file to `addTorrent`.
pub fn realdebrid_add_url(source: &TorrentSource) -> (r: String)
    ensures
        r@ == realdebrid_base() + match *source {
            TorrentSource::TorrentFile(_) => "/torrents/addTorrent"@,
            _ => "/torrents/addMagnet"@,
        },
{
    proof {
        reveal_strlit("https://api.real-debrid.com/rest/1.0");
        reveal_strlit("/torrents/addTorrent");
        reveal_strlit("/torrents/addMagnet");
        reveal_strlit("https://api.real-debrid.com/rest/1.0/torrents/addTorrent");
        reveal_strlit("https://api.real-debrid.com/rest/1.0/torrents/addMagnet");
        assert(realdebrid_base() + "/torrents/addTorrent"@
            =~= "https://api.real-debrid.com/rest/1.0/torrents/addTorrent"@);
        assert(realdebrid_base() + "/torrents/addMagnet"@
            =~= "https://api.real-debrid.com/rest/1.0/torrents/addMagnet"@);
    }
    match source {
        TorrentSource::TorrentFile(_) => String::from_str("https://api.real-debrid.com/rest/1.0/torrents/addTorrent"),
        _ => String::from_str("https://api.real-debrid.com/rest/1.0/torrents/addMagnet"),
    }
}

/// The Real-Debrid request that selects every file of a torrent.
pub fn realdebrid_select_url(torrent_id: &str) -> (r: String)
    ensures
        r@ == realdebrid_base() + "/torrents/selectFiles/"@ + torrent_id@,
{
    let mut u = String::from_str("https://api.real-debrid.com/rest/1.0/torrents/selectFiles/");
    u.append(torrent_id);
    proof {
        reveal_strlit("https://api.real-debrid.com/rest/1.0");
        reveal_strlit("/torrents/selectFiles/");
        reveal_strlit("https://api.real-debrid.com/rest/1.0/torrents/selectFiles/");
        assert(realdebrid_base() + "/torrents/selectFiles/"@
            =~= "https://api.real-debrid.com/rest/1.0/torrents/selectFiles/"@);
    }
    u
}

/// The Real-Debrid request that deletes one torrent.
pub fn realdebrid_delete_url(id: &CloudTorrentId) -> (r: String)
    ensures
        r@ == realdebrid_base() + "/torrents/delete/"@ + id.0@,
{
    let mut u = String::from_str("https://api.real-debrid.com/rest/1.0/torrents/delete/");
    u.append(id.0.as_str());
    proof {
        reveal_strlit("https://api.real-debrid.com/rest/1.0");
        reveal_strlit("/torrents/delete/");
        reveal_strlit("https://api.real-debrid.com/rest/1.0/torrents/delete/");
        assert(realdebrid_base() + "/torrents/delete/"@ =~= "https://api.real-debrid.com/rest/1.0/torrents/delete/"@);
    }
    u
}

/// The Real-Debrid availability check for one info hash, upper-cased.
pub fn realdebrid_cached_url(info_hash: &str) -> (r: String)
    ensures
        r@ == realdebrid_base() + "/torrents/instantAvailability/"@ + uppercase(info_hash@),
{
    let mut u = String::from_str("https://api.real-debrid.com/rest/1.0/torrents/instantAvailability/");
    u.append(to_uppercase(info_hash).as_str());
    proof {
        reveal_strlit("https://api.real-debrid.com/rest/1.0");
        reveal_strlit("/torrents/instantAvailability/");
        reveal_strlit("https://api.real-debrid.com/rest/1.0/torrents/instantAvailability/");
        assert(realdebrid_base() + "/torrents/instantAvailability/"@
            =~= "https://api.real-debrid.com/rest/1.0/torrents/instantAvailability/"@);
    }
    u
}

/// The error when a Torbox torrent lists no files to download.
pub fn torbox_no_files() -> (e: TsubasaError)
    ensures
        e matches TsubasaError::Cloud { provider, source: CloudError::DownloadFailed(m) } && provider@ == "torbox"@
            && m@ == "No files in torrent"@,
{
    TsubasaError::Cloud {
        provider: String::from_str("torbox"),
        source: CloudError::DownloadFailed(String::from_str("No files in torrent")),
    }
}

// ─── Direct downloads ───────────────────────────────────────

/// The `Range` header that resumes a download after `existing` bytes, if any
/// are already on disk.
pub fn range_header(existing: u64) -> (r: Option<String>)
    ensures
        existing == 0 ==> r is None,
        existing > 0 ==> (r matches Some(h) && h@ == "bytes="@ + decimal_text(existing as nat) + "-"@),
{
    if existing == 0 {
        None
    } else {
        let mut h = String::from_str("bytes=");
        h.append(decimal_string(existing).as_str());
        h.append("-");
        Some(h)
    }
}

/// How a direct download starts once the server answered.
#[derive(Debug, Clone, Copy, PartialEq, Eq, Structural)]
pub struct TransferStart {
    /// Whether the bytes received append to those already on disk.
    pub resume: bool,
    /// The file's full size as the server gives it (0 when unknown).
    pub total_bytes: u64,
    /// The bytes already counted as downloaded.
    pub downloaded: u64,
}

/// The total size a `Content-Range` value gives: the number after its last `/`.
pub open spec fn content_range_total(v: Seq<char>) -> Option<u64> {
    let parts = split_on(v, '/');
    match u64_parse(parts[parts.len() - 1]) {
        Ok(n) => Some(n),
        Err(_) => None,
    }
}

/// The full size of a download from the server's answer: for a partial answer
/// (206) the `Content-Range` total, else what was on disk plus the length
/// sent; for a full answer the length sent (0 when unknown).
pub open spec fn transfer_total(existing: u64, status: u16, content_range: Option<Seq<char>>, content_length: Option<u64>) -> int {
    let len = match content_length {
        Some(l) => l as int,
        None => 0,
    };
    if status == 206 {
        match content_range {
            Some(v) => match content_range_total(v) {
                Some(t) => t as int,
                None => existing + len,
            },
            None => existing + len,
        }
    } else {
        len
    }
}

proof fn lemma_split_on_nonempty(s: Seq<char>, c: char)
    ensures
        split_on(s, c).len() > 0,
    decreases s.len(),
{
    match crate::text::find_first(s, c) {
        Some(k) => if 0 <= k < s.len() {
            lemma_split_on_nonempty(s.subrange(k + 1, s.len() as int), c);
        },
        None => {},
    }
}

/// The last `/`-separated piece of a header value.
fn last_piece(v: &Vec<char>) -> (r: usize)
    ensures
        r <= v@.len(),
        split_on(v@, '/')[split_on(v@, '/').len() - 1] == v@.subrange(r as int, v@.len() as int),
{
    let n = v.len();
    let mut pos: usize = 0;
    proof {
        assert(v@.subrange(0, n as int) =~= v@);
        lemma_split_on_nonempty(v@, '/');
    }
    loop
        invariant
            pos <= n == v@.len(),
            split_on(v@.subrange(pos as int, n as int), '/').len() > 0,
            split_on(v@, '/')[split_on(v@, '/').len() - 1] == split_on(v@.subrange(pos as int, n as int), '/')[
                split_on(v@.subrange(pos as int, n as int), '/').len() - 1
            ],
        decreases n - pos,
    {
        match crate::text::find_char(v, pos, n, '/') {
            None => {
                return pos;
            },
            Some(k) => {
                proof {
                    crate::text::lemma_split_step(v@, pos as int, k as int, n as int, '/');
                    lemma_split_on_nonempty(v@.subrange(k + 1, n as int), '/');
                    let rest = split_on(v@.subrange(k + 1, n as int), '/');
                    let all = seq![v@.subrange(pos as int, k as int)] + rest;
                    assert(all[all.len() - 1] == rest[rest.len() - 1]);
                }
                pos = k + 1;
            },
        }
    }
}

/// Decide how a direct download proceeds from the server's answer: 416 and
/// any other failing status are errors; otherwise the total size, and whether
/// the data resumes the `existing` bytes on disk (a 206 answer to a resumed
/// request).
pub fn start_transfer(
    existing: u64,
    status: u16,
    status_line: &str,
    url: &str,
    content_range: Option<&str>,
    content_length: Option<u64>,
) -> (r: Result<TransferStart, TsubasaError>)
    requires
        status == 206 ==> existing + match content_length {
            Some(l) => l as int,
            None => 0,
        } <= u64::MAX,
    ensures
        status == 416 ==> (r matches Err(TsubasaError::Download(DownloadError::HttpFetch(m))) && m@
            == "Range not satisfiable (file may be complete)"@),
        status != 416 && !(200 <= status < 300) ==> (r matches Err(TsubasaError::Download(
            DownloadError::HttpFetch(m),
        )) && m@ == "HTTP "@ + status_line@ + " for "@ + url@),
        200 <= status < 300 ==> (r matches Ok(t) && t.total_bytes == transfer_total(
            existing,
            status,
            match content_range {
                Some(v) => Some(v@),
                None => None,
            },
            content_length,
        ) && t.resume == (status == 206 && existing > 0) && t.downloaded == if t.resume {
            existing
        } else {
            0
        }),
{
    if status == 416 {
        return Err(
            TsubasaError::Download(
                DownloadError::HttpFetch(String::from_str("Range not satisfiable (file may be complete)")),
            ),
        );
    }
    if status < 200 || status >= 300 {
        let mut m = String::from_str("HTTP ");
        m.append(status_line);
        m.append(" for ");
        m.append(url);
        return Err(TsubasaError::Download(DownloadError::HttpFetch(m)));
    }
    let len = match content_length {
        Some(l) => l,
        None => 0,
    };
    let total = if status == 206 {
        match content_range {
            Some(v) => {
                let cv = chars_of(v);
                let start = last_piece(&cv);
                match parse_u64_text(&cv, start, cv.len()) {
                    Ok(t) => t,
                    Err(_) => existing + len,
                }
            },
            None => existing + len,
        }
    } else {
        len
    };
    let resume = status == 206 && existing > 0;
    Ok(TransferStart { resume, total_bytes: total, downloaded: if resume { existing } else { 0 } })
}

/// The result of a finished direct download.
pub fn finished_download(filename: &str, save_path: String, downloaded: u64) -> (r: CloudDownloadResult)
    ensures
        r.filename@ == filename@,
        r.save_path == save_path,
        r.total_bytes == downloaded,
{
    CloudDownloadResult { filename: String::from_str(filename), save_path, total_bytes: downloaded }
}

/// Each documented Torbox `download_state` reads as its status, whatever the
/// progress: `cached` is cached; `completed` and `uploading` (the torrent is
/// finished on Torbox's side) are completed; `downloading`, `metaDL` and
/// `compressing` are downloading with the reported progress; `queued`,
/// `stalled (no seeds)` and `paused` are queued; `error` and `dead` are
/// failures. Only the downloading states depend on the progress.
pub proof fn lemma_torbox_documented_states(p: u32, q: u32, s: Seq<char>)
    ensures
        torbox_status_of(Some("cached"@), p) == StatusView::Cached,
        torbox_status_of(Some("completed"@), p) == StatusView::Completed,
        torbox_status_of(Some("uploading"@), p) == StatusView::Completed,
        torbox_status_of(Some("downloading"@), p) == StatusView::Downloading(p),
        torbox_status_of(Some("metaDL"@), p) == StatusView::Downloading(p),
        torbox_status_of(Some("compressing"@), p) == StatusView::Downloading(p),
        torbox_status_of(Some("queued"@), p) == StatusView::Queued,
        torbox_status_of(Some("stalled (no seeds)"@), p) == StatusView::Queued,
        torbox_status_of(Some("paused"@), p) == StatusView::Queued,
        torbox_status_of(Some("error"@), p) matches StatusView::Failed(_),
        torbox_status_of(Some("dead"@), p) matches StatusView::Failed(_),
        torbox_status_of(None, p) == StatusView::Unknown,
        !(torbox_status_of(Some(s), p) is Downloading) ==> torbox_status_of(Some(s), p) == torbox_status_of(
            Some(s),
            q,
        ),
{
    reveal_strlit("cached");
    reveal_strlit("completed");
    reveal_strlit("uploading");
    reveal_strlit("downloading");
    reveal_strlit("metaDL");
    reveal_strlit("compressing");
    reveal_strlit("queued");
    reveal_strlit("stalled (no seeds)");
    reveal_strlit("paused");
    reveal_strlit("error");
    reveal_strlit("dead");
    assert("cached"@.len() == 6);
    assert("completed"@.len() == 9);
    assert("uploading"@.len() == 9);
    assert("downloading"@.len() == 11);
    assert("metaDL"@.len() == 6);
    assert("compressing"@.len() == 11);
    assert("queued"@.len() == 6);
    assert("stalled (no seeds)"@.len() == 18);
    assert("paused"@.len() == 6);
    assert("error"@.len() == 5);
    assert("dead"@.len() == 4);
    assert("cached"@[0] != "metaDL"@[0]);
    assert("cached"@[0] != "queued"@[0]);
    assert("cached"@[0] != "paused"@[0]);
    assert("completed"@[0] != "uploading"@[0]);
    assert("downloading"@[0] != "compressing"@[0]);
    assert("metaDL"@[0] != "queued"@[0]);
    assert("metaDL"@[0] != "paused"@[0]);
    assert("queued"@[0] != "paused"@[0]);
}

/// Each documented Real-Debrid `status` reads as its status, whatever the
/// progress: `downloaded` is completed; `downloading`, `compressing` and
/// `uploading` are downloading with the reported progress; `queued`,
/// `magnet_conversion` and `waiting_files_selection` are queued; `error`,
/// `virus`, `dead` and `magnet_error` are failures naming the status.
pub proof fn lemma_realdebrid_documented_states(p: u32)
    ensures
        realdebrid_status_of(Some("downloaded"@), p) == StatusView::Completed,
        realdebrid_status_of(Some("downloading"@), p) == StatusView::Downloading(p),
        realdebrid_status_of(Some("compressing"@), p) == StatusView::Downloading(p),
        realdebrid_status_of(Some("uploading"@), p) == StatusView::Downloading(p),
        realdebrid_status_of(Some("queued"@), p) == StatusView::Queued,
        realdebrid_status_of(Some("magnet_conversion"@), p) == StatusView::Queued,
        realdebrid_status_of(Some("waiting_files_selection"@), p) == StatusView::Queued,
        realdebrid_status_of(Some("error"@), p) == StatusView::Failed("Real-Debrid status: "@ + "error"@),
        realdebrid_status_of(Some("virus"@), p) == StatusView::Failed("Real-Debrid status: "@ + "virus"@),
        realdebrid_status_of(Some("dead"@), p) == StatusView::Failed("Real-Debrid status: "@ + "dead"@),
        realdebrid_status_of(Some("magnet_error"@), p) == StatusView::Failed(
            "Real-Debrid status: "@ + "magnet_error"@,
        ),
        realdebrid_status_of(None, p) == StatusView::Unknown,
{
    reveal_strlit("downloaded");
    reveal_strlit("downloading");
    reveal_strlit("compressing");
    reveal_strlit("uploading");
    reveal_strlit("queued");
    reveal_strlit("magnet_conversion");
    reveal_strlit("waiting_files_selection");
    reveal_strlit("error");
    reveal_strlit("virus");
    reveal_strlit("dead");
    reveal_strlit("magnet_error");
    assert("downloaded"@.len() == 10);
    assert("downloading"@.len() == 11);
    assert("compressing"@.len() == 11);
    assert("uploading"@.len() == 9);
    assert("queued"@.len() == 6);
    assert("magnet_conversion"@.len() == 17);
    assert("waiting_files_selection"@.len() == 23);
    assert("error"@.len() == 5);
    assert("virus"@.len() == 5);
    assert("dead"@.len() == 4);
    assert("magnet_error"@.len() == 12);
    assert("downloading"@[0] != "compressing"@[0]);
    assert("error"@[0] != "virus"@[0]);
}

} // verus!
