//! Torrent lifecycle state machine and download policy.

use vstd::prelude::*;

use crate::error::TsubasaError;
use crate::text::same_text;

verus! {

/// All possible states a torrent can be in.
#[derive(Debug, Clone, Copy, PartialEq, Eq, Structural, Hash)]
pub enum TorrentState {
    /// Just added, parsing metadata / fetching info from magnet
    Pending,
    /// Checking existing files on disk
    Checking,
    /// Queued, waiting for a download slot
    Queued,
    /// Actively downloading (local, cloud, or hybrid)
    Downloading,
    /// User or system paused the download
    Paused,
    /// All pieces downloaded and verified
    Completed,
    /// Uploading to peers after completion
    Seeding,
    /// Stopped by user or ratio limit met
    Stopped,
    /// Recoverable error state
    Errored,
}

/// The transition table: which state changes are legal.
pub open spec fn transition_allowed(from: TorrentState, to: TorrentState) -> bool {
    match from {
        TorrentState::Pending => to == TorrentState::Checking || to == TorrentState::Downloading
            || to == TorrentState::Queued || to == TorrentState::Errored
            || to == TorrentState::Paused,
        TorrentState::Checking => to == TorrentState::Downloading || to
            == TorrentState::Completed || to == TorrentState::Queued || to
            == TorrentState::Errored || to == TorrentState::Paused,
        TorrentState::Queued => to == TorrentState::Downloading || to == TorrentState::Paused
            || to == TorrentState::Errored,
        TorrentState::Downloading => to == TorrentState::Paused || to
            == TorrentState::Completed || to == TorrentState::Errored || to
            == TorrentState::Stopped,
        TorrentState::Paused => to == TorrentState::Downloading || to == TorrentState::Queued
            || to == TorrentState::Stopped || to == TorrentState::Checking,
        TorrentState::Completed => to == TorrentState::Seeding || to == TorrentState::Stopped,
        TorrentState::Seeding => to == TorrentState::Stopped || to == TorrentState::Paused
            || to == TorrentState::Errored,
        TorrentState::Errored => to == TorrentState::Pending || to == TorrentState::Downloading
            || to == TorrentState::Queued || to == TorrentState::Stopped
            || to == TorrentState::Paused,
        TorrentState::Stopped => to == TorrentState::Downloading || to == TorrentState::Queued
            || to == TorrentState::Seeding || to == TorrentState::Checking,
    }
}

/// States that consume resources.
pub open spec fn state_is_active(s: TorrentState) -> bool {
    s == TorrentState::Downloading || s == TorrentState::Checking || s == TorrentState::Seeding
        || s == TorrentState::Pending
}

/// States in which no further progress is expected.
pub open spec fn state_is_terminal(s: TorrentState) -> bool {
    s == TorrentState::Stopped || s == TorrentState::Errored
}

/// The lower-case name of a state, as shown to users and stored in the database.
pub open spec fn state_name(s: TorrentState) -> Seq<char> {
    match s {
        TorrentState::Pending => "pending"@,
        TorrentState::Checking => "checking"@,
        TorrentState::Queued => "queued"@,
        TorrentState::Downloading => "downloading"@,
        TorrentState::Paused => "paused"@,
        TorrentState::Completed => "completed"@,
        TorrentState::Seeding => "seeding"@,
        TorrentState::Stopped => "stopped"@,
        TorrentState::Errored => "errored"@,
    }
}

/// The outcome of asking for a state change.
pub open spec fn transition_result(from: TorrentState, to: TorrentState) -> Result<
    TorrentState,
    (Seq<char>, Seq<char>),
> {
    if from == to || transition_allowed(from, to) {
        Ok(to)
    } else {
        Err((state_name(from), state_name(to)))
    }
}

impl TorrentState {
    /// Check if a transition from `self` to `target` is valid.
    pub fn can_transition_to(&self, target: TorrentState) -> (r: bool)
        ensures
            r == transition_allowed(*self, target),
    {
        match *self {
            TorrentState::Pending => match target {
                TorrentState::Checking | TorrentState::Downloading | TorrentState::Queued
                | TorrentState::Errored | TorrentState::Paused => true,
                _ => false,
            },
            TorrentState::Checking => match target {
                TorrentState::Downloading | TorrentState::Completed | TorrentState::Queued
                | TorrentState::Errored | TorrentState::Paused => true,
                _ => false,
            },
            TorrentState::Queued => match target {
                TorrentState::Downloading | TorrentState::Paused | TorrentState::Errored => true,
                _ => false,
            },
            TorrentState::Downloading => match target {
                TorrentState::Paused | TorrentState::Completed | TorrentState::Errored
                | TorrentState::Stopped => true,
                _ => false,
            },
            TorrentState::Paused => match target {
                TorrentState::Downloading | TorrentState::Queued | TorrentState::Stopped
                | TorrentState::Checking => true,
                _ => false,
            },
            TorrentState::Completed => match target {
                TorrentState::Seeding | TorrentState::Stopped => true,
                _ => false,
            },
            TorrentState::Seeding => match target {
                TorrentState::Stopped | TorrentState::Paused | TorrentState::Errored => true,
                _ => false,
            },
            TorrentState::Errored => match target {
                TorrentState::Pending | TorrentState::Downloading | TorrentState::Queued
                | TorrentState::Stopped | TorrentState::Paused => true,
                _ => false,
            },
            TorrentState::Stopped => match target {
                TorrentState::Downloading | TorrentState::Queued | TorrentState::Seeding
                | TorrentState::Checking => true,
                _ => false,
            },
        }
    }

    /// Attempt a state transition. A no-op transition always succeeds; any
    /// other change succeeds exactly when the table allows it, and is refused
    /// with `InvalidTransition` naming both states otherwise.
    pub fn transition_to(self, target: TorrentState) -> (r: Result<TorrentState, TsubasaError>)
        ensures
            match transition_result(self, target) {
                Ok(s) => r == Ok::<TorrentState, TsubasaError>(s),
                Err((f, t)) => r matches Err(TsubasaError::InvalidTransition { from, to })
                    && from@ == f && to@ == t,
            },
    {
        if self == target {
            return Ok(self);
        }
        if self.can_transition_to(target) {
            Ok(target)
        } else {
            Err(
                TsubasaError::InvalidTransition {
                    from: self.to_display_string(),
                    to: target.to_display_string(),
                },
            )
        }
    }

    /// Is this state considered "active" (consuming resources)?
    pub fn is_active(&self) -> (r: bool)
        ensures
            r == state_is_active(*self),
    {
        match *self {
            TorrentState::Downloading | TorrentState::Checking | TorrentState::Seeding
            | TorrentState::Pending => true,
            _ => false,
        }
    }

    /// Is this state terminal (no further progress expected)?
    pub fn is_terminal(&self) -> (r: bool)
        ensures
            r == state_is_terminal(*self),
    {
        match *self {
            TorrentState::Stopped | TorrentState::Errored => true,
            _ => false,
        }
    }

    /// The lower-case name of the state.
    pub fn as_str(&self) -> (r: &'static str)
        ensures
            r@ == state_name(*self),
    {
        match *self {
            TorrentState::Pending => "pending",
            TorrentState::Checking => "checking",
            TorrentState::Queued => "queued",
            TorrentState::Downloading => "downloading",
            TorrentState::Paused => "paused",
            TorrentState::Completed => "completed",
            TorrentState::Seeding => "seeding",
            TorrentState::Stopped => "stopped",
            TorrentState::Errored => "errored",
        }
    }

    /// The lower-case name of the state as an owned string (what `Display` shows).
    pub fn to_display_string(&self) -> (r: String)
        ensures
            r@ == state_name(*self),
    {
        String::from_str(self.as_str())
    }
}

/// Download policy: which path a torrent uses.
#[derive(Debug, Clone, Copy, PartialEq, Eq, Structural)]
pub enum DownloadPolicy {
    LocalOnly,
    CloudOnly,
    Hybrid,
}

/// The snake-case name of a policy.
pub open spec fn policy_name(p: DownloadPolicy) -> Seq<char> {
    match p {
        DownloadPolicy::LocalOnly => "local_only"@,
        DownloadPolicy::CloudOnly => "cloud_only"@,
        DownloadPolicy::Hybrid => "hybrid"@,
    }
}

impl DownloadPolicy {
    /// The snake-case name of the policy (what `Display` shows).
    pub fn as_str(&self) -> (r: &'static str)
        ensures
            r@ == policy_name(*self),
    {
        match *self {
            DownloadPolicy::LocalOnly => "local_only",
            DownloadPolicy::CloudOnly => "cloud_only",
            DownloadPolicy::Hybrid => "hybrid",
        }
    }
}

impl Default for DownloadPolicy {
    fn default() -> (p: DownloadPolicy)
        ensures
            p == DownloadPolicy::LocalOnly,
    {
        DownloadPolicy::LocalOnly
    }
}

/// An active state is never terminal, and a terminal state is never active.
pub proof fn lemma_active_and_terminal_are_disjoint(s: TorrentState)
    ensures
        !(state_is_active(s) && state_is_terminal(s)),
{
}

/// A transition always ends either where it started or in a state the table
/// allows; no state is listed as a transition target of itself.
pub proof fn lemma_transition_lands_on_allowed_state(from: TorrentState, to: TorrentState)
    ensures
        !transition_allowed(from, from),
        transition_result(from, to) matches Ok(s) ==> (s == from || transition_allowed(from, s)),
        transition_result(from, from) == Ok::<TorrentState, (Seq<char>, Seq<char>)>(from),
{
}

/// From every state a torrent can be stopped in at most two legal steps.
pub proof fn lemma_stopped_reachable_within_two_steps(s: TorrentState)
    ensures
        s == TorrentState::Stopped || transition_allowed(s, TorrentState::Stopped) || exists|
            m: TorrentState,
        |
            #![trigger transition_allowed(s, m)]
            transition_allowed(s, m) && transition_allowed(m, TorrentState::Stopped),
{
    match s {
        TorrentState::Pending => {
            assert(transition_allowed(s, TorrentState::Downloading));
        },
        TorrentState::Checking => {
            assert(transition_allowed(s, TorrentState::Downloading));
        },
        TorrentState::Queued => {
            assert(transition_allowed(s, TorrentState::Downloading));
        },
        _ => {},
    }
}

/// Every state names itself distinctly, so an error message identifies the states.
pub proof fn lemma_state_names_distinct(a: TorrentState, b: TorrentState)
    ensures
        state_name(a) == state_name(b) ==> a == b,
{
    reveal_strlit("pending");
    reveal_strlit("checking");
    reveal_strlit("queued");
    reveal_strlit("downloading");
    reveal_strlit("paused");
    reveal_strlit("completed");
    reveal_strlit("seeding");
    reveal_strlit("stopped");
    reveal_strlit("errored");
    if state_name(a) == state_name(b) && a != b {
        assert(state_name(a).len() != state_name(b).len() || state_name(a)[0] != state_name(
            b,
        )[0] || state_name(a)[1] != state_name(b)[1] || state_name(a)[2] != state_name(b)[2]);
    }
}

/// The state a stored name stands for; an unknown name reads as errored.
pub open spec fn parse_state_spec(n: Seq<char>) -> TorrentState {
    if n == "pending"@ {
        TorrentState::Pending
    } else if n == "checking"@ {
        TorrentState::Checking
    } else if n == "queued"@ {
        TorrentState::Queued
    } else if n == "downloading"@ {
        TorrentState::Downloading
    } else if n == "paused"@ {
        TorrentState::Paused
    } else if n == "completed"@ {
        TorrentState::Completed
    } else if n == "seeding"@ {
        TorrentState::Seeding
    } else if n == "stopped"@ {
        TorrentState::Stopped
    } else {
        TorrentState::Errored
    }
}

/// The state a stored name stands for; an unknown name reads as errored.
pub fn parse_state(s: &str) -> (r: TorrentState)
    ensures
        r == parse_state_spec(s@),
{
    if same_text(s, "pending") {
        TorrentState::Pending
    } else if same_text(s, "checking") {
        TorrentState::Checking
    } else if same_text(s, "queued") {
        TorrentState::Queued
    } else if same_text(s, "downloading") {
        TorrentState::Downloading
    } else if same_text(s, "paused") {
        TorrentState::Paused
    } else if same_text(s, "completed") {
        TorrentState::Completed
    } else if same_text(s, "seeding") {
        TorrentState::Seeding
    } else if same_text(s, "stopped") {
        TorrentState::Stopped
    } else {
        TorrentState::Errored
    }
}

/// The policy a stored name stands for; an unknown name reads as local only.
pub open spec fn parse_policy_spec(n: Seq<char>) -> DownloadPolicy {
    if n == "cloud_only"@ {
        DownloadPolicy::CloudOnly
    } else if n == "hybrid"@ {
        DownloadPolicy::Hybrid
    } else {
        DownloadPolicy::LocalOnly
    }
}

/// The policy a stored name stands for; an unknown name reads as local only.
pub fn parse_policy(s: &str) -> (r: DownloadPolicy)
    ensures
        r == parse_policy_spec(s@),
{
    if same_text(s, "cloud_only") {
        DownloadPolicy::CloudOnly
    } else if same_text(s, "hybrid") {
        DownloadPolicy::Hybrid
    } else {
        DownloadPolicy::LocalOnly
    }
}

/// Reading back the stored name of a state gives the state.
pub proof fn lemma_state_name_round_trip(s: TorrentState)
    ensures
        parse_state_spec(state_name(s)) == s,
{
    lemma_state_names_distinct(s, TorrentState::Pending);
    lemma_state_names_distinct(s, TorrentState::Checking);
    lemma_state_names_distinct(s, TorrentState::Queued);
    lemma_state_names_distinct(s, TorrentState::Downloading);
    lemma_state_names_distinct(s, TorrentState::Paused);
    lemma_state_names_distinct(s, TorrentState::Completed);
    lemma_state_names_distinct(s, TorrentState::Seeding);
    lemma_state_names_distinct(s, TorrentState::Stopped);
}

/// Reading back the stored name of a policy gives the policy.
pub proof fn lemma_policy_name_round_trip(p: DownloadPolicy)
    ensures
        parse_policy_spec(policy_name(p)) == p,
{
    reveal_strlit("local_only");
    reveal_strlit("cloud_only");
    reveal_strlit("hybrid");
    assert("local_only"@[0] != "cloud_only"@[0]);
}

/// The documented state changes, as a list of (from, to) pairs.
pub open spec fn documented_transitions() -> Seq<(TorrentState, TorrentState)> {
    seq![
        (TorrentState::Pending, TorrentState::Checking),
        (TorrentState::Pending, TorrentState::Downloading),
        (TorrentState::Pending, TorrentState::Queued),
        (TorrentState::Pending, TorrentState::Errored),
        (TorrentState::Pending, TorrentState::Paused),
        (TorrentState::Checking, TorrentState::Downloading),
        (TorrentState::Checking, TorrentState::Completed),
        (TorrentState::Checking, TorrentState::Queued),
        (TorrentState::Checking, TorrentState::Errored),
        (TorrentState::Checking, TorrentState::Paused),
        (TorrentState::Queued, TorrentState::Downloading),
        (TorrentState::Queued, TorrentState::Paused),
        (TorrentState::Queued, TorrentState::Errored),
        (TorrentState::Downloading, TorrentState::Paused),
        (TorrentState::Downloading, TorrentState::Completed),
        (TorrentState::Downloading, TorrentState::Errored),
        (TorrentState::Downloading, TorrentState::Stopped),
        (TorrentState::Paused, TorrentState::Downloading),
        (TorrentState::Paused, TorrentState::Queued),
        (TorrentState::Paused, TorrentState::Stopped),
        (TorrentState::Paused, TorrentState::Checking),
        (TorrentState::Completed, TorrentState::Seeding),
        (TorrentState::Completed, TorrentState::Stopped),
        (TorrentState::Seeding, TorrentState::Stopped),
        (TorrentState::Seeding, TorrentState::Paused),
        (TorrentState::Seeding, TorrentState::Errored),
        (TorrentState::Errored, TorrentState::Pending),
        (TorrentState::Errored, TorrentState::Downloading),
        (TorrentState::Errored, TorrentState::Queued),
        (TorrentState::Errored, TorrentState::Stopped),
        (TorrentState::Errored, TorrentState::Paused),
        (TorrentState::Stopped, TorrentState::Downloading),
        (TorrentState::Stopped, TorrentState::Queued),
        (TorrentState::Stopped, TorrentState::Seeding),
        (TorrentState::Stopped, TorrentState::Checking),
    ]
}

/// The transition table is exactly the documented list of state changes.
pub proof fn lemma_transitions_are_documented(from: TorrentState, to: TorrentState)
    ensures
        transition_allowed(from, to) <==> documented_transitions().contains((from, to)),
{
    let d = documented_transitions();
    if transition_allowed(from, to) {
        let k = choose|k: int| 0 <= k < d.len() && d[k] == (from, to);
    }
    if d.contains((from, to)) {
        let k = choose|k: int| 0 <= k < d.len() && d[k] == (from, to);
        assert(transition_allowed(d[k].0, d[k].1));
    }
}

/// Every torrent that is not downloading and has not finished can be
/// (re)started: pending, checking, queued, paused, errored and stopped
/// torrents may move to downloading in one step; downloading, completed and
/// seeding ones may not. So a paused torrent can always be resumed.
pub proof fn lemma_resume_to_downloading(s: TorrentState)
    ensures
        transition_allowed(s, TorrentState::Downloading) <==> !(s == TorrentState::Downloading || s
            == TorrentState::Completed || s == TorrentState::Seeding),
        transition_allowed(s, TorrentState::Downloading) ==> transition_result(s, TorrentState::Downloading)
            == Ok::<TorrentState, (Seq<char>, Seq<char>)>(TorrentState::Downloading),
{
}

} // verus!
