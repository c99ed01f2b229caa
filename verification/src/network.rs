//! Bandwidth limits, proxy configuration and connection settings.

use vstd::prelude::*;

use crate::settings::schema::{ConnectionSettings, ProxySettings, ProxyType};
use crate::text::{decimal_string, decimal_text, same_text};

verus! {

// ─── Bandwidth ──────────────────────────────────────────────

/// Global bandwidth configuration.
#[derive(Debug, Clone, Copy, PartialEq, Eq, Structural)]
pub struct BandwidthConfig {
    /// Global download limit in bytes per second, 0 = unlimited.
    pub download_limit: u64,
    /// Global upload limit in bytes per second, 0 = unlimited.
    pub upload_limit: u64,
    /// Maximum number of connections overall.
    pub max_connections: u32,
    /// Maximum connections per torrent.
    pub max_connections_per_torrent: u32,
}

impl Default for BandwidthConfig {
    fn default() -> (c: BandwidthConfig)
        ensures
            c == (BandwidthConfig {
                download_limit: 0,
                upload_limit: 0,
                max_connections: 500,
                max_connections_per_torrent: 100,
            }),
    {
        BandwidthConfig { download_limit: 0, upload_limit: 0, max_connections: 500, max_connections_per_torrent: 100 }
    }
}

/// Rate limits as the engine takes them: `None` is unlimited.
#[derive(Debug, Clone, Copy, PartialEq, Eq, Structural)]
pub struct RateLimits {
    pub download_bps: Option<u32>,
    pub upload_bps: Option<u32>,
}

/// The engine's limit for a configured limit: the value cut to 32 bits, with
/// 0 meaning unlimited.
pub open spec fn engine_limit(limit: u64) -> Option<u32> {
    if limit as u32 == 0 {
        None
    } else {
        Some(limit as u32)
    }
}

fn to_engine_limit(limit: u64) -> (r: Option<u32>)
    ensures
        r == engine_limit(limit),
{
    #[verifier::truncate]
    let v = limit as u32;
    if v == 0 {
        None
    } else {
        Some(v)
    }
}

impl BandwidthConfig {
    /// The session-wide rate limits.
    pub fn to_librqbit_limits(&self) -> (r: RateLimits)
        ensures
            r.download_bps == engine_limit(self.download_limit),
            r.upload_bps == engine_limit(self.upload_limit),
    {
        RateLimits {
            download_bps: to_engine_limit(self.download_limit),
            upload_bps: to_engine_limit(self.upload_limit),
        }
    }
}

/// Per-torrent bandwidth override.
#[derive(Debug, Clone, Copy, PartialEq, Eq, Structural)]
pub struct TorrentBandwidthConfig {
    /// Download limit in bytes per second for this torrent, 0 = the global one.
    pub download_limit: u64,
    /// Upload limit in bytes per second for this torrent, 0 = the global one.
    pub upload_limit: u64,
}

impl Default for TorrentBandwidthConfig {
    fn default() -> (c: TorrentBandwidthConfig)
        ensures
            c == (TorrentBandwidthConfig { download_limit: 0, upload_limit: 0 }),
    {
        TorrentBandwidthConfig { download_limit: 0, upload_limit: 0 }
    }
}

impl TorrentBandwidthConfig {
    /// The per-torrent rate limits.
    pub fn to_librqbit_limits(&self) -> (r: RateLimits)
        ensures
            r.download_bps == engine_limit(self.download_limit),
            r.upload_bps == engine_limit(self.upload_limit),
    {
        RateLimits {
            download_bps: to_engine_limit(self.download_limit),
            upload_bps: to_engine_limit(self.upload_limit),
        }
    }
}

/// The limits to apply to a running session for a configuration.
pub fn apply_session_limits(config: &BandwidthConfig) -> (r: RateLimits)
    ensures
        r.download_bps == engine_limit(config.download_limit),
        r.upload_bps == engine_limit(config.upload_limit),
{
    config.to_librqbit_limits()
}

/// Limits below 2^32 bytes per second reach the engine as they are; 0 is
/// unlimited.
pub proof fn lemma_small_limits_exact(limit: u64)
    requires
        limit <= u32::MAX,
    ensures
        limit == 0 ==> engine_limit(limit) is None,
        limit > 0 ==> engine_limit(limit) == Some(limit as u32),
{
}

// ─── Proxy ──────────────────────────────────────────────────

/// The URL scheme of a proxy type.
pub open spec fn proxy_scheme(t: ProxyType) -> Seq<char> {
    match t {
        ProxyType::Socks4 => "socks4"@,
        ProxyType::Socks5 => "socks5"@,
        ProxyType::Http => "http"@,
        ProxyType::NoProxy => ""@,
    }
}

/// Whether a proxy is configured: a type other than none, and a host.
pub open spec fn proxy_active(c: ProxySettings) -> bool {
    c.proxy_type != ProxyType::NoProxy && c.host@.len() > 0
}

/// The proxy URL `scheme://[user:pass@]host:port` of an active proxy.
pub open spec fn proxy_url_of(c: ProxySettings) -> Option<Seq<char>> {
    if !proxy_active(c) {
        None
    } else {
        let auth = match c.auth {
            Some(a) => a.username@ + ":"@ + a.password@ + "@"@,
            None => seq![],
        };
        Some(proxy_scheme(c.proxy_type) + "://"@ + auth + c.host@ + ":"@ + decimal_text(c.port as nat))
    }
}

/// The proxy configuration in force.
pub struct ProxyManager {
    config: ProxySettings,
}

impl ProxyManager {
    /// The settings in force.
    pub closed spec fn config(&self) -> ProxySettings {
        self.config
    }

    /// A manager for the given settings.
    pub fn new(config: ProxySettings) -> (m: ProxyManager)
        ensures
            m.config() == config,
    {
        ProxyManager { config }
    }

    /// The settings in force.
    pub fn settings(&self) -> (r: &ProxySettings)
        ensures
            *r == self.config(),
    {
        &self.config
    }

    /// Whether a proxy is configured (a type other than none, and a host).
    pub fn is_active(&self) -> (r: bool)
        ensures
            r == proxy_active(self.config()),
    {
        self.config.proxy_type != ProxyType::NoProxy && self.config.host.as_str().unicode_len() > 0
    }

    /// The proxy URL, `scheme://[user:pass@]host:port`, when a proxy is active.
    pub fn proxy_url(&self) -> (r: Option<String>)
        ensures
            match r {
                Some(u) => proxy_url_of(self.config()) == Some(u@),
                None => proxy_url_of(self.config()) is None,
            },
    {
        if !self.is_active() {
            return None;
        }
        let scheme = match self.config.proxy_type {
            ProxyType::Socks4 => "socks4",
            ProxyType::Socks5 => "socks5",
            ProxyType::Http => "http",
            ProxyType::NoProxy => {
                return None;
            },
        };
        let mut u = String::from_str(scheme);
        u.append("://");
        match &self.config.auth {
            Some(a) => {
                u.append(a.username.as_str());
                u.append(":");
                u.append(a.password.as_str());
                u.append("@");
            },
            None => {
                proof {
                    assert(u@ + Seq::<char>::empty() =~= u@);
                }
            },
        }
        u.append(self.config.host.as_str());
        u.append(":");
        u.append(decimal_string(self.config.port as u64).as_str());
        Some(u)
    }

    /// Replace the settings.
    pub fn update(&mut self, new: ProxySettings)
        ensures
            final(self).config() == new,
    {
        self.config = new;
    }

    /// Whether searches go through the proxy.
    pub fn apply_to_search(&self) -> (r: bool)
        ensures
            r == self.config().apply_to_search,
    {
        self.config.apply_to_search
    }

    /// Whether tracker announces go through the proxy.
    pub fn apply_to_trackers(&self) -> (r: bool)
        ensures
            r == self.config().apply_to_trackers,
    {
        self.config.apply_to_trackers
    }
}

// ─── Connections ────────────────────────────────────────────

/// Whether changing from `old` to `new` needs an engine restart: the listen
/// port or the bound interface changed.
pub open spec fn needs_restart(old: ConnectionSettings, new: ConnectionSettings) -> bool {
    old.listen_port != new.listen_port || opt_text(old.bind_interface) != opt_text(new.bind_interface)
}

/// The text of an optional string.
pub open spec fn opt_text(o: Option<String>) -> Option<Seq<char>> {
    match o {
        Some(s) => Some(s@),
        None => None,
    }
}

fn same_opt_text(a: &Option<String>, b: &Option<String>) -> (r: bool)
    ensures
        r == (opt_text(*a) == opt_text(*b)),
{
    match (a, b) {
        (Some(x), Some(y)) => same_text(x.as_str(), y.as_str()),
        (None, None) => true,
        _ => false,
    }
}

/// The connection settings in force.
pub struct ConnectionManager {
    config: ConnectionSettings,
}

impl ConnectionManager {
    /// The settings in force.
    pub closed spec fn config(&self) -> ConnectionSettings {
        self.config
    }

    /// A manager for the given settings.
    pub fn new(config: ConnectionSettings) -> (m: ConnectionManager)
        ensures
            m.config() == config,
    {
        ConnectionManager { config }
    }

    /// The settings in force.
    pub fn settings(&self) -> (r: &ConnectionSettings)
        ensures
            *r == self.config(),
    {
        &self.config
    }

    /// Replace the settings; whether the change needs an engine restart.
    pub fn update(&mut self, new: ConnectionSettings) -> (restart: bool)
        ensures
            final(self).config() == new,
            restart == needs_restart(old(self).config(), new),
    {
        let restart = self.config.listen_port != new.listen_port || !same_opt_text(
            &self.config.bind_interface,
            &new.bind_interface,
        );
        self.config = new;
        restart
    }

    /// Whether changing the named setting needs an engine restart.
    pub fn requires_restart(field: &str) -> (r: bool)
        ensures
            r == (field@ == "listen_port"@ || field@ == "bind_interface"@),
    {
        same_text(field, "listen_port") || same_text(field, "bind_interface")
    }

    pub fn global_max_connections(&self) -> (r: u32)
        ensures
            r == self.config().global_max_connections,
    {
        self.config.global_max_connections
    }

    pub fn per_torrent_max_connections(&self) -> (r: u32)
        ensures
            r == self.config().per_torrent_max_connections,
    {
        self.config.per_torrent_max_connections
    }

    pub fn upnp_enabled(&self) -> (r: bool)
        ensures
            r == self.config().enable_upnp,
    {
        self.config.enable_upnp
    }

    pub fn utp_enabled(&self) -> (r: bool)
        ensures
            r == self.config().enable_utp,
    {
        self.config.enable_utp
    }
}

} // verus!
