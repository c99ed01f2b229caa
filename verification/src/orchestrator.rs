//! Download orchestration: which path (local swarm, cloud provider or both) a
//! download takes, which provider gets it, and the decisions of the cloud
//! download lifecycle. The caller performs each action (HTTP requests, waits,
//! file writes, events) and hands the outcome back as an event.

use vstd::prelude::*;

use crate::cloud::{CloudDownloadResult, CloudStatus, CloudTorrentId, DirectLink, ProviderKind};
use crate::error::{CloudError, DownloadError, EngineError, TsubasaError};
use crate::state_machine::DownloadPolicy;
use crate::text::{chars_of, has_prefix, starts_with_at};

verus! {

/// Preferred download path when in hybrid mode.
#[derive(Debug, Clone, Copy, PartialEq, Eq, Structural)]
pub enum PreferredPath {
    /// Prefer the local swarm, fall back to the cloud.
    PreferLocal,
    /// Prefer the cloud, fall back to the local swarm.
    PreferCloud,
    /// Race both at once.
    Race,
}

impl Default for PreferredPath {
    fn default() -> (p: PreferredPath)
        ensures
            p == PreferredPath::Race,
    {
        PreferredPath::Race
    }
}

/// A torrent's download behaviour.
#[derive(Debug, Clone, Copy, PartialEq, Eq, Structural)]
pub struct DownloadConfig {
    pub policy: DownloadPolicy,
    pub preferred_path: PreferredPath,
    /// Download limit in bytes per second, 0 = unlimited.
    pub speed_limit_down: u64,
    /// Upload limit in bytes per second, 0 = unlimited.
    pub speed_limit_up: u64,
    /// Max peers for this torrent, 0 = the global default.
    pub max_peers: u32,
}

impl Default for DownloadConfig {
    fn default() -> (c: DownloadConfig)
        ensures
            c == (DownloadConfig {
                policy: DownloadPolicy::LocalOnly,
                preferred_path: PreferredPath::Race,
                speed_limit_down: 0,
                speed_limit_up: 0,
                max_peers: 0,
            }),
    {
        DownloadConfig {
            policy: DownloadPolicy::LocalOnly,
            preferred_path: PreferredPath::Race,
            speed_limit_down: 0,
            speed_limit_up: 0,
            max_peers: 0,
        }
    }
}

/// What starting a download achieved.
#[derive(Debug, Clone, PartialEq, Eq)]
pub struct StartResult {
    pub info_hash: String,
    pub name: String,
    pub total_bytes: u64,
    pub local_started: bool,
    pub cloud_started: bool,
}

/// Whether a download source is a magnet URI (else it is a torrent file path).
pub fn is_magnet(source: &str) -> (r: bool)
    ensures
        r == has_prefix(source@, "magnet:"@),
{
    let v = chars_of(source);
    let r = starts_with_at(&v, 0, v.len(), "magnet:");
    assert(v@.subrange(0, v@.len() as int) =~= v@);
    r
}

/// The error of a local start when the engine is not running.
pub fn engine_not_initialized() -> (e: TsubasaError)
    ensures
        e matches TsubasaError::Engine(EngineError::Operation(m)) && m@ == "Engine not initialized"@,
{
    TsubasaError::Engine(EngineError::Operation(String::from_str("Engine not initialized")))
}

/// The result of a local-only start: the engine added the torrent.
pub fn local_only_result(info_hash: String, name: String, total_bytes: u64) -> (r: StartResult)
    ensures
        r == (StartResult { info_hash, name, total_bytes, local_started: true, cloud_started: false }),
{
    StartResult { info_hash, name, total_bytes, local_started: true, cloud_started: false }
}

/// The result of a cloud-only start: the cloud lifecycle was spawned; nothing
/// is known yet of the torrent itself.
pub fn cloud_only_result() -> (r: StartResult)
    ensures
        r.info_hash@.len() == 0 && r.name@.len() == 0 && r.total_bytes == 0,
        !r.local_started && r.cloud_started,
{
    StartResult {
        info_hash: String::new(),
        name: String::new(),
        total_bytes: 0,
        local_started: false,
        cloud_started: true,
    }
}

/// The result of a hybrid start, from what the engine gave (info hash, name,
/// size) if it started, and whether a cloud lifecycle was spawned: an error
/// when neither path started.
pub fn hybrid_result(local: Option<(String, String, u64)>, cloud_started: bool) -> (r: Result<StartResult, TsubasaError>)
    ensures
        local is None && !cloud_started ==> r == Err::<StartResult, TsubasaError>(
            TsubasaError::Download(DownloadError::NoPath),
        ),
        local matches Some((h, n, t)) ==> r == Ok::<StartResult, TsubasaError>(
            StartResult { info_hash: h, name: n, total_bytes: t, local_started: true, cloud_started },
        ),
        local is None && cloud_started ==> (r matches Ok(s) && s.info_hash@.len() == 0 && s.name@.len()
            == 0 && s.total_bytes == 0 && !s.local_started && s.cloud_started),
{
    match local {
        Some((info_hash, name, total_bytes)) => Ok(
            StartResult { info_hash, name, total_bytes, local_started: true, cloud_started },
        ),
        None => if cloud_started {
            Ok(cloud_only_result())
        } else {
            Err(TsubasaError::Download(DownloadError::NoPath))
        },
    }
}

// ─── Provider choice ────────────────────────────────────────

/// The configured providers in order of preference: Torbox, then Real-Debrid.
pub fn provider_order(torbox_configured: bool, realdebrid_configured: bool) -> (r: Vec<ProviderKind>)
    ensures
        r@ == (if torbox_configured { seq![ProviderKind::Torbox] } else { seq![] }) + (if realdebrid_configured {
            seq![ProviderKind::RealDebrid]
        } else {
            seq![]
        }),
{
    let mut r: Vec<ProviderKind> = Vec::new();
    if torbox_configured {
        r.push(ProviderKind::Torbox);
    }
    if realdebrid_configured {
        r.push(ProviderKind::RealDebrid);
    }
    proof {
        assert(r@ =~= (if torbox_configured { seq![ProviderKind::Torbox] } else { seq![] }) + (
        if realdebrid_configured {
            seq![ProviderKind::RealDebrid]
        } else {
            seq![]
        }));
    }
    r
}

/// The next step in choosing a provider.
#[derive(Debug, Clone, Copy, PartialEq, Eq, Structural)]
pub enum PickStep {
    /// Ask this provider whether it has the torrent cached.
    CheckCache(ProviderKind),
    /// Use this provider.
    Select(ProviderKind),
    /// No provider is configured.
    NoProvider,
}

/// The position of the first cache hit among the replies.
pub open spec fn first_hit(replies: Seq<bool>) -> Option<int> {
    if exists|i: int| 0 <= i < replies.len() && replies[i] && forall|j: int| 0 <= j < i ==> !replies[j] {
        Some(choose|i: int| 0 <= i < replies.len() && replies[i] && forall|j: int| 0 <= j < i ==> !replies[j])
    } else {
        None
    }
}

/// What to do next: with no provider, fail; without an info hash, take the
/// first; else ask the providers in turn whether they have the torrent cached
/// and take the first that does, or the first provider when none does.
/// `replies[i]` is the answer of `providers[i]` (a failed check counts as no).
pub open spec fn pick_step(providers: Seq<ProviderKind>, has_hash: bool, replies: Seq<bool>) -> PickStep {
    if providers.len() == 0 {
        PickStep::NoProvider
    } else if !has_hash {
        PickStep::Select(providers[0])
    } else {
        match first_hit(replies) {
            Some(i) => if i < providers.len() {
                PickStep::Select(providers[i])
            } else {
                PickStep::Select(providers[0])
            },
            None => if replies.len() < providers.len() {
                PickStep::CheckCache(providers[replies.len() as int])
            } else {
                PickStep::Select(providers[0])
            },
        }
    }
}

/// The next step in choosing a provider for a download, given the configured
/// providers in order, whether the source has an info hash, and the cache
/// answers received so far.
pub fn next_pick_step(providers: &[ProviderKind], has_hash: bool, replies: &[bool]) -> (r: PickStep)
    ensures
        r == pick_step(providers@, has_hash, replies@),
{
    if providers.len() == 0 {
        return PickStep::NoProvider;
    }
    if !has_hash {
        return PickStep::Select(providers[0]);
    }
    let mut i: usize = 0;
    while i < replies.len()
        invariant
            i <= replies@.len(),
            providers@.len() > 0,
            has_hash,
            forall|j: int| 0 <= j < i ==> !replies@[j],
        decreases replies@.len() - i,
    {
        if replies[i] {
            proof {
                let w = choose|k: int|
                    0 <= k < replies@.len() && replies@[k] && forall|j: int| 0 <= j < k ==> !replies@[j];
                assert(0 <= i < replies@.len() && replies@[i as int] && forall|j: int| 0 <= j < i ==> !replies@[j]);
                assert(w == i) by {
                    if w < i {
                        assert(!replies@[w]);
                    } else if w > i {
                        assert(!replies@[i as int]);
                    }
                }
            }
            if i < providers.len() {
                return PickStep::Select(providers[i]);
            } else {
                return PickStep::Select(providers[0]);
            }
        }
        i = i + 1;
    }
    assert(first_hit(replies@) is None);
    if replies.len() < providers.len() {
        PickStep::CheckCache(providers[replies.len()])
    } else {
        PickStep::Select(providers[0])
    }
}

/// A cached provider is always preferred: once some provider reported the
/// torrent cached, that first one is selected, and a selection is only ever of
/// a configured provider.
pub proof fn lemma_cached_provider_wins(providers: Seq<ProviderKind>, replies: Seq<bool>, i: int)
    requires
        0 <= i < replies.len(),
        i < providers.len(),
        replies[i],
        forall|j: int| 0 <= j < i ==> !replies[j],
    ensures
        pick_step(providers, true, replies) == PickStep::Select(providers[i]),
{
    let w = choose|k: int| 0 <= k < replies.len() && replies[k] && forall|j: int| 0 <= j < k ==> !replies[j];
    assert(0 <= i < replies.len() && replies[i] && forall|j: int| 0 <= j < i ==> !replies[j]);
    assert(w == i) by {
        if w < i {
            assert(!replies[w]);
        } else if w > i {
            assert(!replies[i]);
        }
    }
}

// ─── Cloud lifecycle ────────────────────────────────────────

/// Where a cloud download stands.
#[derive(Debug, Clone, Copy, PartialEq, Eq, Structural)]
pub enum LifecyclePhase {
    /// The source is being submitted to the provider.
    Submitting,
    /// Waiting for the provider to finish downloading.
    Polling,
    /// Asking the provider for the direct links.
    FetchingLinks,
    /// Downloading the files from the provider's CDN.
    Downloading,
    /// All files are on disk.
    Finished,
    /// The download failed.
    Failed,
    /// The download was cancelled.
    Cancelled,
}

/// What the caller reports back to the lifecycle.
#[derive(Debug)]
pub enum LifecycleEvent {
    /// The torrent file could not be read; the reason.
    SourceUnreadable(String),
    /// The reply to the submission (after retries).
    Submitted(Result<CloudTorrentId, TsubasaError>),
    /// A cancellation was requested.
    CancelRequested,
    /// The reply to a status check (after retries).
    Status(Result<CloudStatus, TsubasaError>),
    /// The reply to the request for direct links (after retries).
    Links(Result<Vec<DirectLink>, TsubasaError>),
    /// The outcome of downloading every file.
    Downloaded(Result<Vec<CloudDownloadResult>, TsubasaError>),
}

/// What the caller is to do next.
#[derive(Debug, Clone)]
pub enum LifecycleAction {
    /// Remember the provider's id, announce "queued" and check the status.
    TrackAndPoll(CloudTorrentId),
    /// Announce the provider's progress (hundredths of a percent), wait the
    /// poll interval (or a cancellation), then check again.
    ReportProgressAndWait(u32),
    /// Wait the poll interval (or a cancellation), then check again.
    Wait,
    /// Announce "completed" and ask for the direct links.
    FetchLinks,
    /// Record the total size and download every file.
    DownloadFiles { total_bytes: u64 },
    /// Mark the torrent completed and announce it, then delete the torrent
    /// from the provider (its id, once it was submitted) to free the quota.
    DeleteAndComplete { cloud_id: Option<CloudTorrentId>, name: String, downloaded_bytes: u64, total_bytes: u64 },
    /// Delete the torrent from the provider; the download is cancelled.
    DeleteAndCancel(CloudTorrentId),
    /// The download failed with this error.
    Fail(TsubasaError),
    /// Nothing to do: the event does not apply in this phase.
    Ignore,
}

/// Sum of the link sizes.
pub open spec fn links_total(links: Seq<DirectLink>) -> int
    decreases links.len(),
{
    if links.len() == 0 {
        0
    } else {
        links_total(links.drop_last()) + links.last().size_bytes
    }
}

/// Sum of the downloaded sizes.
pub open spec fn results_total(rs: Seq<CloudDownloadResult>) -> int
    decreases rs.len(),
{
    if rs.len() == 0 {
        0
    } else {
        results_total(rs.drop_last()) + rs.last().total_bytes
    }
}

/// The state of one cloud download.
pub struct CloudLifecycle {
    pub phase: LifecyclePhase,
    /// The provider's name, as errors carry it.
    pub provider: String,
    /// The provider's id once the torrent was submitted.
    pub cloud_id: Option<CloudTorrentId>,
    /// Total size of the direct links once known.
    pub total_bytes: u64,
    /// File name of the first direct link once known.
    pub first_name: String,
}

fn sum_links(links: &Vec<DirectLink>) -> (r: u64)
    requires
        links_total(links@) <= u64::MAX,
    ensures
        r == links_total(links@),
{
    let mut total: u64 = 0;
    let mut i: usize = 0;
    while i < links.len()
        invariant
            i <= links@.len(),
            links_total(links@) <= u64::MAX,
            total == links_total(links@.subrange(0, i as int)),
        decreases links@.len() - i,
    {
        proof {
            lemma_links_prefix_bound(links@, i as int + 1);
            assert(links@.subrange(0, i + 1).drop_last() =~= links@.subrange(0, i as int));
        }
        total = total + links[i].size_bytes;
        i = i + 1;
    }
    assert(links@.subrange(0, links@.len() as int) =~= links@);
    total
}

proof fn lemma_links_prefix_bound(links: Seq<DirectLink>, k: int)
    requires
        0 <= k <= links.len(),
    ensures
        links_total(links.subrange(0, k)) <= links_total(links),
    decreases links.len() - k,
{
    if k < links.len() {
        lemma_links_prefix_bound(links, k + 1);
        assert(links.subrange(0, k + 1).drop_last() =~= links.subrange(0, k));
    } else {
        assert(links.subrange(0, k) =~= links);
    }
}

proof fn lemma_results_prefix_bound(rs: Seq<CloudDownloadResult>, k: int)
    requires
        0 <= k <= rs.len(),
    ensures
        results_total(rs.subrange(0, k)) <= results_total(rs),
    decreases rs.len() - k,
{
    if k < rs.len() {
        lemma_results_prefix_bound(rs, k + 1);
        assert(rs.subrange(0, k + 1).drop_last() =~= rs.subrange(0, k));
    } else {
        assert(rs.subrange(0, k) =~= rs);
    }
}

fn sum_results(rs: &Vec<CloudDownloadResult>) -> (r: u64)
    requires
        results_total(rs@) <= u64::MAX,
    ensures
        r == results_total(rs@),
{
    let mut total: u64 = 0;
    let mut i: usize = 0;
    while i < rs.len()
        invariant
            i <= rs@.len(),
            results_total(rs@) <= u64::MAX,
            total == results_total(rs@.subrange(0, i as int)),
        decreases rs@.len() - i,
    {
        proof {
            lemma_results_prefix_bound(rs@, i as int + 1);
            assert(rs@.subrange(0, i + 1).drop_last() =~= rs@.subrange(0, i as int));
        }
        total = total + rs[i].total_bytes;
        i = i + 1;
    }
    assert(rs@.subrange(0, rs@.len() as int) =~= rs@);
    total
}

/// Whether the lifecycle is over.
pub open spec fn is_over(p: LifecyclePhase) -> bool {
    p == LifecyclePhase::Finished || p == LifecyclePhase::Failed || p == LifecyclePhase::Cancelled
}

/// The failure of a cloud download on the provider's side.
pub open spec fn provider_failure(e: TsubasaError, provider: Seq<char>, reason: Seq<char>) -> bool {
    e matches TsubasaError::Cloud { provider: p, source: CloudError::DownloadFailed(m) } && p@ == provider
        && m@ == reason
}

/// What a step may do; the events that carry sizes must have totals that fit.
pub open spec fn event_fits(e: LifecycleEvent) -> bool {
    &&& (e matches LifecycleEvent::Links(Ok(links)) ==> links_total(links@) <= u64::MAX)
    &&& (e matches LifecycleEvent::Downloaded(Ok(rs)) ==> results_total(rs@) <= u64::MAX)
}

impl CloudLifecycle {
    /// A new lifecycle for a download through `provider`: the caller submits
    /// the source first.
    pub fn new(provider: String) -> (l: CloudLifecycle)
        ensures
            l.phase == LifecyclePhase::Submitting,
            l.provider == provider,
            l.cloud_id is None,
    {
        CloudLifecycle {
            phase: LifecyclePhase::Submitting,
            provider,
            cloud_id: None,
            total_bytes: 0,
            first_name: String::new(),
        }
    }

    /// Take the caller's report and decide what to do next.
    pub fn step(&mut self, event: LifecycleEvent) -> (a: LifecycleAction)
        requires
            event_fits(event),
        ensures
            final(self).provider == old(self).provider,
            // the provider's id is set once, at submission
            old(self).phase != LifecyclePhase::Submitting ==> final(self).cloud_id == old(self).cloud_id,
            // a lifecycle only moves forward
            phase_rank(final(self).phase) >= phase_rank(old(self).phase),
            // once over, nothing changes
            is_over(old(self).phase) ==> final(self).phase == old(self).phase && a is Ignore,
            // submission
            old(self).phase == LifecyclePhase::Submitting ==> match event {
                LifecycleEvent::SourceUnreadable(msg) => final(self).phase == LifecyclePhase::Failed && (
                a matches LifecycleAction::Fail(TsubasaError::Download(DownloadError::FileWrite(m)))
                    && m@ == "Failed to read torrent file: "@ + msg@),
                LifecycleEvent::Submitted(Ok(id)) => final(self).phase == LifecyclePhase::Polling
                    && final(self).cloud_id == Some(id) && a == LifecycleAction::TrackAndPoll(id),
                LifecycleEvent::Submitted(Err(e)) => final(self).phase == LifecyclePhase::Failed && a
                    == LifecycleAction::Fail(e),
                _ => final(self).phase == old(self).phase && a is Ignore,
            },
            // polling
            old(self).phase == LifecyclePhase::Polling && old(self).cloud_id is Some ==> match event {
                LifecycleEvent::CancelRequested => final(self).phase == LifecyclePhase::Cancelled && a
                    == LifecycleAction::DeleteAndCancel(old(self).cloud_id->0),
                LifecycleEvent::Status(Err(e)) => final(self).phase == LifecyclePhase::Failed && a
                    == LifecycleAction::Fail(e),
                LifecycleEvent::Status(Ok(CloudStatus::Completed)) => final(self).phase
                    == LifecyclePhase::FetchingLinks && a is FetchLinks,
                LifecycleEvent::Status(Ok(CloudStatus::Cached)) => final(self).phase
                    == LifecyclePhase::FetchingLinks && a is FetchLinks,
                LifecycleEvent::Status(Ok(CloudStatus::Downloading { progress_bp })) => final(self).phase
                    == LifecyclePhase::Polling && a == LifecycleAction::ReportProgressAndWait(progress_bp),
                LifecycleEvent::Status(Ok(CloudStatus::Queued)) => final(self).phase
                    == LifecyclePhase::Polling && a is Wait,
                LifecycleEvent::Status(Ok(CloudStatus::Unknown)) => final(self).phase
                    == LifecyclePhase::Polling && a is Wait,
                LifecycleEvent::Status(Ok(CloudStatus::Failed { reason })) => final(self).phase
                    == LifecyclePhase::Failed && (a matches LifecycleAction::Fail(e) && provider_failure(
                    e,
                    old(self).provider@,
                    reason@,
                )),
                _ => final(self).phase == old(self).phase && a is Ignore,
            },
            // links
            old(self).phase == LifecyclePhase::FetchingLinks ==> match event {
                LifecycleEvent::Links(Err(e)) => final(self).phase == LifecyclePhase::Failed && a
                    == LifecycleAction::Fail(e),
                LifecycleEvent::Links(Ok(links)) => if links@.len() == 0 {
                    final(self).phase == LifecyclePhase::Failed && (a matches LifecycleAction::Fail(e)
                        && provider_failure(e, old(self).provider@, "No download links returned"@))
                } else {
                    final(self).phase == LifecyclePhase::Downloading && final(self).total_bytes
                        == links_total(links@) && final(self).first_name == links@[0].filename && a
                        == (LifecycleAction::DownloadFiles { total_bytes: final(self).total_bytes })
                },
                _ => final(self).phase == old(self).phase && a is Ignore,
            },
            // files
            old(self).phase == LifecyclePhase::Downloading ==> match event {
                LifecycleEvent::Downloaded(Err(e)) => final(self).phase == LifecyclePhase::Failed && a
                    == LifecycleAction::Fail(e),
                LifecycleEvent::Downloaded(Ok(rs)) => final(self).phase == LifecyclePhase::Finished
                    && (a matches LifecycleAction::DeleteAndComplete { cloud_id, name, downloaded_bytes, total_bytes }
                    && cloud_id == old(self).cloud_id && name == old(self).first_name && downloaded_bytes
                    == results_total(rs@) && total_bytes == old(self).total_bytes),
                _ => final(self).phase == old(self).phase && a is Ignore,
            },
    {
        match self.phase {
            LifecyclePhase::Submitting => match event {
                LifecycleEvent::SourceUnreadable(msg) => {
                    self.phase = LifecyclePhase::Failed;
                    let mut m = String::from_str("Failed to read torrent file: ");
                    m.append(msg.as_str());
                    LifecycleAction::Fail(TsubasaError::Download(DownloadError::FileWrite(m)))
                },
                LifecycleEvent::Submitted(Ok(id)) => {
                    self.phase = LifecyclePhase::Polling;
                    self.cloud_id = Some(id.duplicate());
                    LifecycleAction::TrackAndPoll(id)
                },
                LifecycleEvent::Submitted(Err(e)) => {
                    self.phase = LifecyclePhase::Failed;
                    LifecycleAction::Fail(e)
                },
                _ => LifecycleAction::Ignore,
            },
            LifecyclePhase::Polling => {
                let id = match &self.cloud_id {
                    Some(id) => id.duplicate(),
                    None => {
                        return LifecycleAction::Ignore;
                    },
                };
                match event {
                    LifecycleEvent::CancelRequested => {
                        self.phase = LifecyclePhase::Cancelled;
                        LifecycleAction::DeleteAndCancel(id)
                    },
                    LifecycleEvent::Status(Err(e)) => {
                        self.phase = LifecyclePhase::Failed;
                        LifecycleAction::Fail(e)
                    },
                    LifecycleEvent::Status(Ok(status)) => match status {
                        CloudStatus::Completed | CloudStatus::Cached => {
                            self.phase = LifecyclePhase::FetchingLinks;
                            LifecycleAction::FetchLinks
                        },
                        CloudStatus::Downloading { progress_bp } => LifecycleAction::ReportProgressAndWait(
                            progress_bp,
                        ),
                        CloudStatus::Queued | CloudStatus::Unknown => LifecycleAction::Wait,
                        CloudStatus::Failed { reason } => {
                            self.phase = LifecyclePhase::Failed;
                            LifecycleAction::Fail(
                                TsubasaError::Cloud {
                                    provider: self.provider.clone(),
                                    source: CloudError::DownloadFailed(reason),
                                },
                            )
                        },
                    },
                    _ => LifecycleAction::Ignore,
                }
            },
            LifecyclePhase::FetchingLinks => match event {
                LifecycleEvent::Links(Err(e)) => {
                    self.phase = LifecyclePhase::Failed;
                    LifecycleAction::Fail(e)
                },
                LifecycleEvent::Links(Ok(links)) => {
                    if links.len() == 0 {
                        self.phase = LifecyclePhase::Failed;
                        LifecycleAction::Fail(
                            TsubasaError::Cloud {
                                provider: self.provider.clone(),
                                source: CloudError::DownloadFailed(
                                    String::from_str("No download links returned"),
                                ),
                            },
                        )
                    } else {
                        let total = sum_links(&links);
                        self.total_bytes = total;
                        self.first_name = links[0].filename.clone();
                        self.phase = LifecyclePhase::Downloading;
                        LifecycleAction::DownloadFiles { total_bytes: total }
                    }
                },
                _ => LifecycleAction::Ignore,
            },
            LifecyclePhase::Downloading => match event {
                LifecycleEvent::Downloaded(Err(e)) => {
                    self.phase = LifecyclePhase::Failed;
                    LifecycleAction::Fail(e)
                },
                LifecycleEvent::Downloaded(Ok(rs)) => {
                    let done = sum_results(&rs);
                    self.phase = LifecyclePhase::Finished;
                    let cloud_id = match &self.cloud_id {
                        Some(id) => Some(id.duplicate()),
                        None => None,
                    };
                    LifecycleAction::DeleteAndComplete {
                        cloud_id,
                        name: self.first_name.clone(),
                        downloaded_bytes: done,
                        total_bytes: self.total_bytes,
                    }
                },
                _ => LifecycleAction::Ignore,
            },
            _ => LifecycleAction::Ignore,
        }
    }
}

/// How far along a phase is; the ending phases rank last.
pub open spec fn phase_rank(p: LifecyclePhase) -> int {
    match p {
        LifecyclePhase::Submitting => 0,
        LifecyclePhase::Polling => 1,
        LifecyclePhase::FetchingLinks => 2,
        LifecyclePhase::Downloading => 3,
        _ => 4,
    }
}

} // verus!
