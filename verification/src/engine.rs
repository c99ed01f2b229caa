//! One round of the engine's progress poll: which torrents are reported,
//! which finished ones turn to seeding, and the global counters.

use vstd::prelude::*;

use crate::state_machine::{state_is_active, TorrentState};

verus! {

/// What the poll reads of one tracked torrent.
#[derive(Debug, Clone, Copy, PartialEq, Eq, Structural)]
pub struct TorrentPoll {
    pub state: TorrentState,
    /// The engine reports every piece downloaded.
    pub finished: bool,
    /// A completion event was already sent for this torrent.
    pub notified: bool,
    /// Connected peers, where the engine has live statistics.
    pub live_peers: Option<u32>,
}

/// The global counters of one poll round and the torrents that completed in it.
#[derive(Debug, Clone, PartialEq, Eq)]
pub struct PollRound {
    /// Reported torrents that have not finished.
    pub active_torrents: u32,
    /// Live peers over the reported torrents.
    pub total_peers: u32,
    /// Positions of the torrents announced as complete, in order.
    pub completed: Vec<usize>,
}

/// A torrent is reported by the poll when its state is active.
pub open spec fn reported(t: TorrentPoll) -> bool {
    state_is_active(t.state)
}

/// A reported torrent that finished and was not announced yet.
pub open spec fn completes(t: TorrentPoll) -> bool {
    reported(t) && t.finished && !t.notified
}

/// The torrent after the round: a completing one is seeding and announced.
pub open spec fn after_poll(t: TorrentPoll) -> TorrentPoll {
    if completes(t) {
        TorrentPoll { state: TorrentState::Seeding, notified: true, ..t }
    } else {
        t
    }
}

/// How many of the first `n` torrents are reported and unfinished.
pub open spec fn active_count(ts: Seq<TorrentPoll>, n: int) -> nat
    decreases n,
{
    if n <= 0 {
        0
    } else {
        active_count(ts, n - 1) + (if reported(ts[n - 1]) && !ts[n - 1].finished {
            1nat
        } else {
            0nat
        })
    }
}

/// The live peers of the reported torrents among the first `n`.
pub open spec fn peer_count(ts: Seq<TorrentPoll>, n: int) -> nat
    decreases n,
{
    if n <= 0 {
        0
    } else {
        peer_count(ts, n - 1) + (if reported(ts[n - 1]) && ts[n - 1].live_peers is Some {
            ts[n - 1].live_peers->0 as nat
        } else {
            0nat
        })
    }
}

/// The positions among the first `n` torrents that complete, in order.
pub open spec fn completing_positions(ts: Seq<TorrentPoll>, n: int) -> Seq<usize>
    decreases n,
{
    if n <= 0 {
        Seq::empty()
    } else if completes(ts[n - 1]) {
        completing_positions(ts, n - 1).push((n - 1) as usize)
    } else {
        completing_positions(ts, n - 1)
    }
}

proof fn lemma_active_count_bounded(ts: Seq<TorrentPoll>, n: int)
    requires
        0 <= n,
    ensures
        active_count(ts, n) <= n,
    decreases n,
{
    if n > 0 {
        lemma_active_count_bounded(ts, n - 1);
    }
}

proof fn lemma_peer_count_grows(ts: Seq<TorrentPoll>, m: int, n: int)
    requires
        0 <= m <= n,
    ensures
        peer_count(ts, m) <= peer_count(ts, n),
    decreases n,
{
    if m < n {
        lemma_peer_count_grows(ts, m, n - 1);
    }
}

/// Run one poll round over the tracked torrents: every reported torrent
/// that finished and was not announced turns to seeding and is announced;
/// the counters cover the reported torrents. The peer total must fit a `u32`.
pub fn poll_round(ts: &mut Vec<TorrentPoll>) -> (r: PollRound)
    requires
        peer_count(old(ts)@, old(ts)@.len() as int) <= u32::MAX,
        old(ts)@.len() <= u32::MAX,
    ensures
        final(ts)@.len() == old(ts)@.len(),
        forall|i: int| 0 <= i < old(ts)@.len() ==> #[trigger] final(ts)@[i] == after_poll(old(ts)@[i]),
        r.active_torrents == active_count(old(ts)@, old(ts)@.len() as int),
        r.total_peers == peer_count(old(ts)@, old(ts)@.len() as int),
        r.completed@ == completing_positions(old(ts)@, old(ts)@.len() as int),
{
    let ghost orig = ts@;
    let n = ts.len();
    let mut active: u32 = 0;
    let mut peers: u32 = 0;
    let mut completed: Vec<usize> = Vec::new();
    let mut i: usize = 0;
    while i < n
        invariant
            n == orig.len(),
            n <= u32::MAX,
            ts@.len() == n,
            0 <= i <= n,
            peer_count(orig, n as int) <= u32::MAX,
            forall|j: int| 0 <= j < i ==> #[trigger] ts@[j] == after_poll(orig[j]),
            forall|j: int| i <= j < n ==> #[trigger] ts@[j] == orig[j],
            active == active_count(orig, i as int),
            peers == peer_count(orig, i as int),
            completed@ == completing_positions(orig, i as int),
        decreases n - i,
    {
        let t = ts[i];
        proof {
            lemma_active_count_bounded(orig, i as int);
            lemma_peer_count_grows(orig, i as int + 1, n as int);
        }
        if t.state.is_active() {
            if !t.finished {
                active = active + 1;
            }
            match t.live_peers {
                Some(p) => {
                    peers = peers + p;
                },
                None => {},
            }
            if t.finished && !t.notified {
                ts.set(i, TorrentPoll { state: TorrentState::Seeding, notified: true, ..t });
                completed.push(i);
            }
        }
        i = i + 1;
    }
    PollRound { active_torrents: active, total_peers: peers, completed }
}

/// A torrent is announced complete at most once: after a round it no longer
/// completes, and a second round leaves it as the first left it.
pub proof fn lemma_completion_announced_once(t: TorrentPoll)
    ensures
        !completes(after_poll(t)),
        after_poll(after_poll(t)) == after_poll(t),
        completes(t) ==> after_poll(t).state == TorrentState::Seeding,
{
}

} // verus!
