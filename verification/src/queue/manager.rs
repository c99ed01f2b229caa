//! Queue manager: counts active torrents against the configured limits and
//! promotes queued torrents, highest priority (then oldest) first, while slots
//! are free. The caller evaluates it periodically (every two seconds).

use vstd::prelude::*;

use crate::settings::schema::QueueSettings;

verus! {

// ─── Types ──────────────────────────────────────────────────

/// Queue state for a single torrent.
#[derive(Debug, Clone, Copy, PartialEq, Eq, Structural)]
pub enum QueuePosition {
    /// Actively downloading/seeding (has a slot).
    Active,
    /// Waiting for a slot; position in the queue, 1-based.
    Queued(u32),
    /// User forced start: bypasses queue limits.
    ForceStarted,
    /// Paused by user.
    Paused,
}

/// What the queue tracks per torrent. Speeds are whole bytes per second;
/// `added_at` orders torrents by the time they were added (smaller is older).
#[derive(Debug)]
pub struct QueuedTorrent {
    pub id: String,
    pub is_downloading: bool,
    pub is_seeding: bool,
    pub download_speed: u64,
    pub upload_speed: u64,
    /// Higher is dequeued first.
    pub priority: i32,
    pub added_at: u64,
    pub queue_position: QueuePosition,
    pub force_started: bool,
}

impl QueuedTorrent {
    /// An identical copy.
    pub fn duplicate(&self) -> (r: QueuedTorrent)
        ensures
            r == *self,
    {
        QueuedTorrent {
            id: self.id.clone(),
            is_downloading: self.is_downloading,
            is_seeding: self.is_seeding,
            download_speed: self.download_speed,
            upload_speed: self.upload_speed,
            priority: self.priority,
            added_at: self.added_at,
            queue_position: self.queue_position,
            force_started: self.force_started,
        }
    }
}

/// Actions the queue manager wants the engine to take.
#[derive(Debug)]
pub struct QueueActions {
    /// Torrent IDs to start (promoted from the queue).
    pub to_start: Vec<String>,
    /// Torrent IDs to queue (demoted from active).
    pub to_queue: Vec<String>,
}

// ─── Specification ──────────────────────────────────────────

/// Whether a torrent is slow by the configured thresholds.
pub open spec fn slow(t: QueuedTorrent, cfg: QueueSettings) -> bool {
    if t.is_downloading {
        t.download_speed < cfg.slow_torrent_dl_threshold
    } else if t.is_seeding {
        t.upload_speed < cfg.slow_torrent_ul_threshold
    } else {
        false
    }
}

/// Whether a torrent occupies a slot: active, not force-started, and not a slow
/// torrent excluded from the count.
pub open spec fn holds_slot(t: QueuedTorrent, cfg: QueueSettings) -> bool {
    !t.force_started && t.queue_position == QueuePosition::Active && !(cfg.exclude_slow_from_count
        && slow(t, cfg))
}

/// Slots in use: (downloading, seeding, total).
pub open spec fn slot_counts(ts: Seq<QueuedTorrent>, cfg: QueueSettings) -> (nat, nat, nat)
    decreases ts.len(),
{
    if ts.len() == 0 {
        (0, 0, 0)
    } else {
        let p = slot_counts(ts.subrange(0, ts.len() - 1), cfg);
        let t = ts[ts.len() - 1];
        if holds_slot(t, cfg) {
            (
                p.0 + if t.is_downloading {
                    1nat
                } else {
                    0nat
                },
                p.1 + if t.is_seeding {
                    1nat
                } else {
                    0nat
                },
                p.2 + 1,
            )
        } else {
            p
        }
    }
}

/// Whether a torrent waits in the queue.
pub open spec fn is_queued(t: QueuedTorrent) -> bool {
    t.queue_position is Queued
}

/// Queue order: higher priority first, then older first, then earlier registered first.
pub open spec fn goes_before(ts: Seq<QueuedTorrent>, i: int, j: int) -> bool {
    ts[i].priority > ts[j].priority || (ts[i].priority == ts[j].priority && ts[i].added_at
        < ts[j].added_at) || (ts[i].priority == ts[j].priority && ts[i].added_at
        == ts[j].added_at && i < j)
}

/// `o` lists every queued torrent exactly once, in queue order.
pub open spec fn is_queue_order(ts: Seq<QueuedTorrent>, o: Seq<int>) -> bool {
    &&& forall|k: int| 0 <= k < o.len() ==> 0 <= #[trigger] o[k] < ts.len() && is_queued(ts[o[k]])
    &&& forall|i: int| 0 <= i < ts.len() && is_queued(#[trigger] ts[i]) ==> o.contains(i)
    &&& forall|a: int, b: int| 0 <= a < b < o.len() ==> goes_before(ts, #[trigger] o[a], #[trigger] o[b])
}

/// The queued torrents in queue order.
pub open spec fn queue_order(ts: Seq<QueuedTorrent>) -> Seq<int> {
    choose|o: Seq<int>| is_queue_order(ts, o)
}

/// Greedy promotion along the queue order: stop once the total limit is
/// reached; skip a torrent whose per-type limit is reached; otherwise promote it.
pub open spec fn promote(
    ts: Seq<QueuedTorrent>,
    o: Seq<int>,
    cfg: QueueSettings,
    dl: nat,
    ul: nat,
    total: nat,
) -> Seq<int>
    decreases o.len(),
{
    if o.len() == 0 {
        seq![]
    } else if total >= cfg.max_active_total {
        seq![]
    } else {
        let t = ts[o[0]];
        let rest = o.subrange(1, o.len() as int);
        if (t.is_downloading && dl >= cfg.max_active_downloads) || (t.is_seeding && ul
            >= cfg.max_active_uploads) {
            promote(ts, rest, cfg, dl, ul, total)
        } else {
            seq![o[0]] + promote(
                ts,
                rest,
                cfg,
                dl + if t.is_downloading {
                    1nat
                } else {
                    0nat
                },
                ul + if t.is_seeding {
                    1nat
                } else {
                    0nat
                },
                total + 1,
            )
        }
    }
}

/// The torrents evaluation promotes, in the order it promotes them.
pub open spec fn promoted(ts: Seq<QueuedTorrent>, cfg: QueueSettings) -> Seq<int> {
    let c = slot_counts(ts, cfg);
    promote(ts, queue_order(ts), cfg, c.0, c.1, c.2)
}

/// The first torrent with the given id, if any.
pub open spec fn first_with_id(ts: Seq<QueuedTorrent>, id: Seq<char>) -> Option<int> {
    if exists|j: int| 0 <= j < ts.len() && ts[j].id@ == id && forall|k: int| 0 <= k < j ==> ts[k].id@ != id {
        Some(choose|j: int| 0 <= j < ts.len() && ts[j].id@ == id && forall|k: int| 0 <= k < j ==> ts[k].id@ != id)
    } else {
        None
    }
}

/// Mark the first torrent with id `id` active.
pub open spec fn mark_active(ts: Seq<QueuedTorrent>, id: Seq<char>) -> Seq<QueuedTorrent> {
    match first_with_id(ts, id) {
        Some(j) => ts.update(j, QueuedTorrent { queue_position: QueuePosition::Active, ..ts[j] }),
        None => ts,
    }
}

/// Mark, for each id in turn, the first torrent with that id active.
pub open spec fn mark_all_active(ts: Seq<QueuedTorrent>, ids: Seq<String>) -> Seq<QueuedTorrent>
    decreases ids.len(),
{
    if ids.len() == 0 {
        ts
    } else {
        mark_active(mark_all_active(ts, ids.subrange(0, ids.len() - 1)), ids[ids.len() - 1]@)
    }
}

/// How many of the torrents wait in the queue.
pub open spec fn queued_count(ts: Seq<QueuedTorrent>) -> nat
    decreases ts.len(),
{
    if ts.len() == 0 {
        0
    } else {
        queued_count(ts.subrange(0, ts.len() - 1)) + if is_queued(ts[ts.len() - 1]) {
            1nat
        } else {
            0nat
        }
    }
}

/// Number the queued torrents 1, 2, ... in list order.
pub open spec fn renumber(ts: Seq<QueuedTorrent>) -> Seq<QueuedTorrent> {
    Seq::new(
        ts.len(),
        |i: int|
            if is_queued(ts[i]) {
                QueuedTorrent {
                    queue_position: QueuePosition::Queued((queued_count(ts.subrange(0, i)) + 1) as u32),
                    ..ts[i]
                }
            } else {
                ts[i]
            },
    )
}

/// The positions of the first `n` torrents that hold a slot, in list order.
pub open spec fn slot_holders(ts: Seq<QueuedTorrent>, cfg: QueueSettings, n: int) -> Seq<int>
    decreases n,
{
    if n <= 0 {
        seq![]
    } else {
        let p = slot_holders(ts, cfg, n - 1);
        if holds_slot(ts[n - 1], cfg) {
            p.push(n - 1)
        } else {
            p
        }
    }
}

/// The torrents evaluation demotes when more hold a slot than the total limit
/// allows: every slot holder after the first `max_active_total`, in list order.
pub open spec fn demoted(ts: Seq<QueuedTorrent>, cfg: QueueSettings) -> Seq<int> {
    let h = slot_holders(ts, cfg, ts.len() as int);
    if h.len() > cfg.max_active_total {
        h.subrange(cfg.max_active_total as int, h.len() as int)
    } else {
        seq![]
    }
}

/// The torrents with those at positions `idx` sent back to the queue.
pub open spec fn demote_at(ts: Seq<QueuedTorrent>, idx: Seq<int>) -> Seq<QueuedTorrent> {
    Seq::new(
        ts.len(),
        |i: int|
            if idx.contains(i) {
                QueuedTorrent { queue_position: QueuePosition::Queued(0), ..ts[i] }
            } else {
                ts[i]
            },
    )
}

/// The ids of the torrents at the given positions.
pub open spec fn ids_at(ts: Seq<QueuedTorrent>, idx: Seq<int>) -> Seq<String> {
    idx.map_values(|i: int| ts[i].id)
}

/// The torrents without those whose id is `id`, in order.
pub open spec fn without_id(ts: Seq<QueuedTorrent>, id: Seq<char>) -> Seq<QueuedTorrent>
    decreases ts.len(),
{
    if ts.len() == 0 {
        ts
    } else {
        let p = without_id(ts.subrange(0, ts.len() - 1), id);
        if ts[ts.len() - 1].id@ == id {
            p
        } else {
            p.push(ts[ts.len() - 1])
        }
    }
}

// ─── Order facts ────────────────────────────────────────────

/// The sort key of a queued torrent: negated priority, age, position.
pub open spec fn queue_key(ts: Seq<QueuedTorrent>, i: int) -> (i64, u64, usize) {
    ((-(ts[i].priority as int)) as i64, ts[i].added_at, i as usize)
}

/// Lexicographic order on keys (what the std tuple order is).
pub open spec fn key_le(a: (i64, u64, usize), b: (i64, u64, usize)) -> bool {
    a.0 < b.0 || (a.0 == b.0 && (a.1 < b.1 || (a.1 == b.1 && a.2 <= b.2)))
}

/// `slice::sort` on key tuples. The contract states what the documentation
/// fixes: the same elements, in non-decreasing (lexicographic) order.
#[verifier::external_body]
fn sort_keys(v: &mut Vec<(i64, u64, usize)>)
    ensures
        final(v)@.to_multiset() == old(v)@.to_multiset(),
        forall|i: int, j: int|
            0 <= i < j < final(v)@.len() ==> key_le(#[trigger] final(v)@[i], #[trigger] final(v)@[j]),
{
    v.sort()
}

proof fn lemma_order_unique(ts: Seq<QueuedTorrent>, o1: Seq<int>, o2: Seq<int>)
    requires
        forall|a: int, b: int| 0 <= a < b < o1.len() ==> goes_before(ts, #[trigger] o1[a], #[trigger] o1[b]),
        forall|a: int, b: int| 0 <= a < b < o2.len() ==> goes_before(ts, #[trigger] o2[a], #[trigger] o2[b]),
        forall|x: int| o1.contains(x) <==> o2.contains(x),
    ensures
        o1 == o2,
    decreases o1.len(),
{
    if o1.len() == 0 {
        if o2.len() > 0 {
            assert(o2.contains(o2[0]));
        }
        assert(o1 =~= o2);
    } else {
        assert(o1.contains(o1[0]));
        assert(o2.len() > 0);
        assert(o2.contains(o2[0]));
        let a = o1[0];
        let b = o2[0];
        let pb = choose|p: int| 0 <= p < o1.len() && o1[p] == b;
        let pa = choose|p: int| 0 <= p < o2.len() && o2[p] == a;
        if a != b {
            assert(pb > 0);
            assert(goes_before(ts, o1[0], o1[pb]));
            assert(pa > 0);
            assert(goes_before(ts, o2[0], o2[pa]));
        }
        let r1 = o1.subrange(1, o1.len() as int);
        let r2 = o2.subrange(1, o2.len() as int);
        assert forall|x: int| r1.contains(x) <==> r2.contains(x) by {
            if r1.contains(x) {
                let p = choose|p: int| 0 <= p < r1.len() && r1[p] == x;
                assert(o1[p + 1] == x);
                assert(goes_before(ts, o1[0], o1[p + 1]));
                assert(o2.contains(x));
                let q = choose|q: int| 0 <= q < o2.len() && o2[q] == x;
                assert(q != 0);
                assert(r2[q - 1] == x);
            }
            if r2.contains(x) {
                let p = choose|p: int| 0 <= p < r2.len() && r2[p] == x;
                assert(o2[p + 1] == x);
                assert(goes_before(ts, o2[0], o2[p + 1]));
                assert(o1.contains(x));
                let q = choose|q: int| 0 <= q < o1.len() && o1[q] == x;
                assert(q != 0);
                assert(r1[q - 1] == x);
            }
        }
        assert forall|u: int, w: int| 0 <= u < w < r1.len() implies goes_before(ts, #[trigger] r1[u], #[trigger] r1[w]) by {
            assert(goes_before(ts, o1[u + 1], o1[w + 1]));
        }
        assert forall|u: int, w: int| 0 <= u < w < r2.len() implies goes_before(ts, #[trigger] r2[u], #[trigger] r2[w]) by {
            assert(goes_before(ts, o2[u + 1], o2[w + 1]));
        }
        lemma_order_unique(ts, r1, r2);
        assert(o1 =~= seq![a] + r1);
        assert(o2 =~= seq![b] + r2);
    }
}

proof fn lemma_queued_count_step(ts: Seq<QueuedTorrent>, i: int)
    requires
        0 <= i < ts.len(),
    ensures
        queued_count(ts.subrange(0, i + 1)) == queued_count(ts.subrange(0, i)) + if is_queued(ts[i]) {
            1nat
        } else {
            0nat
        },
        queued_count(ts.subrange(0, i)) <= i,
{
    assert(ts.subrange(0, i + 1).subrange(0, i) =~= ts.subrange(0, i));
    lemma_queued_count_bound(ts.subrange(0, i));
}

proof fn lemma_queued_count_bound(ts: Seq<QueuedTorrent>)
    ensures
        queued_count(ts) <= ts.len(),
    decreases ts.len(),
{
    if ts.len() > 0 {
        lemma_queued_count_bound(ts.subrange(0, ts.len() - 1));
    }
}

/// How many of the torrents at positions `r` are downloading / seeding.
pub open spec fn type_counts(ts: Seq<QueuedTorrent>, r: Seq<int>) -> (nat, nat)
    decreases r.len(),
{
    if r.len() == 0 {
        (0, 0)
    } else {
        let p = type_counts(ts, r.subrange(1, r.len() as int));
        (
            p.0 + if ts[r[0]].is_downloading {
                1nat
            } else {
                0nat
            },
            p.1 + if ts[r[0]].is_seeding {
                1nat
            } else {
                0nat
            },
        )
    }
}

/// Promotion never fills more slots than the limits leave free: with `total`
/// slots in use it promotes at most `max_active_total - total` torrents (none
/// once the limit is reached), no more downloading torrents than the download
/// limit leaves room for and no more seeding ones than the upload limit does,
/// and only torrents from the queue order it walks.
pub proof fn lemma_promotion_within_limits(
    ts: Seq<QueuedTorrent>,
    o: Seq<int>,
    cfg: QueueSettings,
    dl: nat,
    ul: nat,
    total: nat,
)
    ensures
        total >= cfg.max_active_total ==> promote(ts, o, cfg, dl, ul, total).len() == 0,
        total < cfg.max_active_total ==> total + promote(ts, o, cfg, dl, ul, total).len()
            <= cfg.max_active_total,
        dl >= cfg.max_active_downloads ==> type_counts(ts, promote(ts, o, cfg, dl, ul, total)).0 == 0,
        dl < cfg.max_active_downloads ==> dl + type_counts(ts, promote(ts, o, cfg, dl, ul, total)).0
            <= cfg.max_active_downloads,
        ul >= cfg.max_active_uploads ==> type_counts(ts, promote(ts, o, cfg, dl, ul, total)).1 == 0,
        ul < cfg.max_active_uploads ==> ul + type_counts(ts, promote(ts, o, cfg, dl, ul, total)).1
            <= cfg.max_active_uploads,
        forall|x: int| promote(ts, o, cfg, dl, ul, total).contains(x) ==> o.contains(x),
    decreases o.len(),
{
    let r = promote(ts, o, cfg, dl, ul, total);
    if o.len() == 0 || total >= cfg.max_active_total {
        assert(r.len() == 0);
    } else {
        let t = ts[o[0]];
        let rest = o.subrange(1, o.len() as int);
        if (t.is_downloading && dl >= cfg.max_active_downloads) || (t.is_seeding && ul
            >= cfg.max_active_uploads) {
            lemma_promotion_within_limits(ts, rest, cfg, dl, ul, total);
            assert forall|x: int| r.contains(x) implies o.contains(x) by {
                assert(rest.contains(x));
                let p = choose|p: int| 0 <= p < rest.len() && rest[p] == x;
                assert(o[p + 1] == x);
            }
        } else {
            let dl2 = dl + if t.is_downloading {
                1nat
            } else {
                0nat
            };
            let ul2 = ul + if t.is_seeding {
                1nat
            } else {
                0nat
            };
            lemma_promotion_within_limits(ts, rest, cfg, dl2, ul2, total + 1);
            let tail = promote(ts, rest, cfg, dl2, ul2, total + 1);
            assert(r == seq![o[0]] + tail);
            assert(r.subrange(1, r.len() as int) =~= tail);
            assert(r[0] == o[0]);
            assert forall|x: int| r.contains(x) implies o.contains(x) by {
                let p = choose|p: int| 0 <= p < r.len() && r[p] == x;
                if p == 0 {
                    assert(o[0] == x);
                } else {
                    assert(tail[p - 1] == x);
                    assert(tail.contains(x));
                    assert(rest.contains(x));
                    let q = choose|q: int| 0 <= q < rest.len() && rest[q] == x;
                    assert(o[q + 1] == x);
                }
            }
        }
    }
}

/// Evaluation leaves the count of slots in use within the total limit (or
/// unchanged, if it was already at or over the limit), and every torrent it
/// starts was waiting in the queue.
pub proof fn lemma_evaluate_respects_limits(ts: Seq<QueuedTorrent>, cfg: QueueSettings)
    ensures
        ({
            let c = slot_counts(ts, cfg);
            let r = promoted(ts, cfg);
            &&& c.2 >= cfg.max_active_total ==> r.len() == 0
            &&& c.2 < cfg.max_active_total ==> c.2 + r.len() <= cfg.max_active_total
            &&& forall|x: int| #[trigger] r.contains(x) ==> 0 <= x < ts.len() && is_queued(ts[x])
        }),
{
    let c = slot_counts(ts, cfg);
    lemma_promotion_within_limits(ts, queue_order(ts), cfg, c.0, c.1, c.2);
    lemma_queue_order_exists(ts);
    let q = queue_order(ts);
    assert forall|x: int| #[trigger] promoted(ts, cfg).contains(x) implies 0 <= x < ts.len() && is_queued(ts[x]) by {
        assert(q.contains(x));
        let p = choose|p: int| 0 <= p < q.len() && q[p] == x;
        assert(0 <= q[p] < ts.len() && is_queued(ts[q[p]]));
    }
}

proof fn lemma_holders_shape(ts: Seq<QueuedTorrent>, cfg: QueueSettings, n: int)
    requires
        0 <= n <= ts.len(),
    ensures
        slot_holders(ts, cfg, n).len() == slot_counts(ts.subrange(0, n), cfg).2,
        forall|k: int| 0 <= k < slot_holders(ts, cfg, n).len() ==> 0 <= #[trigger] slot_holders(ts, cfg, n)[k] < n
            && holds_slot(ts[slot_holders(ts, cfg, n)[k]], cfg),
        forall|a: int, b: int|
            0 <= a < b < slot_holders(ts, cfg, n).len() ==> #[trigger] slot_holders(ts, cfg, n)[a]
                < #[trigger] slot_holders(ts, cfg, n)[b],
    decreases n,
{
    if n > 0 {
        lemma_holders_shape(ts, cfg, n - 1);
        assert(ts.subrange(0, n).subrange(0, n - 1) =~= ts.subrange(0, n - 1));
    }
}

proof fn lemma_holders_prefix(ts: Seq<QueuedTorrent>, cfg: QueueSettings, n: int, m: int)
    requires
        0 <= n <= m <= ts.len(),
    ensures
        slot_holders(ts, cfg, n).len() <= slot_holders(ts, cfg, m).len(),
        forall|k: int| 0 <= k < slot_holders(ts, cfg, n).len() ==> #[trigger] slot_holders(ts, cfg, m)[k]
            == slot_holders(ts, cfg, n)[k],
    decreases m,
{
    if m > n {
        lemma_holders_prefix(ts, cfg, n, m - 1);
    }
}

/// When more torrents hold a slot than the total limit allows, evaluation
/// sends back to the queue exactly as many as are over the limit, so that
/// afterwards the count of torrents holding a slot equals the limit.
pub proof fn lemma_demotion_restores_limit(ts: Seq<QueuedTorrent>, cfg: QueueSettings)
    requires
        slot_counts(ts, cfg).2 > cfg.max_active_total,
    ensures
        demoted(ts, cfg).len() == slot_counts(ts, cfg).2 - cfg.max_active_total,
        promoted(ts, cfg).len() == 0,
        slot_counts(renumber(demote_at(ts, demoted(ts, cfg))), cfg).2 == cfg.max_active_total,
{
    let n = ts.len() as int;
    let lim = cfg.max_active_total as int;
    assert(ts.subrange(0, n) =~= ts);
    lemma_holders_shape(ts, cfg, n);
    let h = slot_holders(ts, cfg, n);
    let d = demoted(ts, cfg);
    let t1 = demote_at(ts, d);
    let t2 = renumber(t1);
    lemma_queue_order_exists(ts);
    let c = slot_counts(ts, cfg);
    assert(promote(ts, queue_order(ts), cfg, c.0, c.1, c.2).len() == 0);
    // holding a slot after: held one before and was not demoted
    assert forall|i: int| 0 <= i < n implies (holds_slot(#[trigger] t2[i], cfg) <==> (holds_slot(ts[i], cfg)
        && !d.contains(i))) by {
        assert(t2[i].force_started == t1[i].force_started);
        if is_queued(t1[i]) {
            assert(t2[i].queue_position is Queued);
        } else {
            assert(t2[i] == t1[i]);
        }
    }
    lemma_holders_after(ts, t2, cfg, n, n);
    assert(t2.subrange(0, n) =~= t2);
    lemma_holders_shape(t2, cfg, n);
}

proof fn lemma_holders_after(ts: Seq<QueuedTorrent>, t2: Seq<QueuedTorrent>, cfg: QueueSettings, n: int, m: int)
    requires
        0 <= m <= n == ts.len() == t2.len(),
        slot_holders(ts, cfg, n).len() > cfg.max_active_total,
        forall|i: int| 0 <= i < n ==> (holds_slot(#[trigger] t2[i], cfg) <==> (holds_slot(ts[i], cfg)
            && !demoted(ts, cfg).contains(i))),
    ensures
        slot_holders(t2, cfg, m).len() == if slot_holders(ts, cfg, m).len() <= cfg.max_active_total {
            slot_holders(ts, cfg, m).len()
        } else {
            cfg.max_active_total as nat
        },
    decreases m,
{
    if m > 0 {
        lemma_holders_after(ts, t2, cfg, n, m - 1);
        let i = m - 1;
        let p = slot_holders(ts, cfg, m - 1).len() as int;
        let h = slot_holders(ts, cfg, n);
        let lim = cfg.max_active_total as int;
        lemma_holders_shape(ts, cfg, n);
        if holds_slot(ts[i], cfg) {
            lemma_holders_prefix(ts, cfg, m, n);
            assert(slot_holders(ts, cfg, m)[p] == i);
            assert(h[p] == i);
            let d = demoted(ts, cfg);
            if p >= lim {
                assert(d[p - lim] == i);
                assert(d.contains(i));
            } else {
                if d.contains(i) {
                    let w = choose|w: int| 0 <= w < d.len() && d[w] == i;
                    assert(h[w + lim] == i);
                    if w + lim > p {
                        assert(h[p] < h[w + lim]);
                    }
                }
            }
        }
    }
}

/// `o` is sorted in queue order.
pub open spec fn in_queue_order(ts: Seq<QueuedTorrent>, o: Seq<int>) -> bool {
    forall|a: int, b: int| 0 <= a < b < o.len() ==> goes_before(ts, #[trigger] o[a], #[trigger] o[b])
}

proof fn lemma_insert_sorted(ts: Seq<QueuedTorrent>, o: Seq<int>, x: int) -> (k: int)
    requires
        in_queue_order(ts, o),
        forall|p: int| 0 <= p < o.len() ==> #[trigger] o[p] != x,
    ensures
        0 <= k <= o.len(),
        in_queue_order(ts, o.subrange(0, k) + seq![x] + o.subrange(k, o.len() as int)),
    decreases o.len(),
{
    if o.len() == 0 {
        assert(o.subrange(0, 0) + seq![x] + o.subrange(0, 0) =~= seq![x]);
        0
    } else {
        let n = o.len() as int;
        let last = o[n - 1];
        if goes_before(ts, last, x) {
            let r = o.subrange(0, n) + seq![x] + o.subrange(n, n);
            assert(r =~= o.push(x));
            assert forall|a: int, b: int| 0 <= a < b < r.len() implies goes_before(ts, #[trigger] r[a], #[trigger] r[b]) by {
                if b == n && a < n - 1 {
                    assert(goes_before(ts, o[a], o[n - 1]));
                }
            }
            n
        } else {
            let d = o.subrange(0, n - 1);
            assert forall|a: int, b: int| 0 <= a < b < d.len() implies goes_before(ts, #[trigger] d[a], #[trigger] d[b]) by {
                assert(goes_before(ts, o[a], o[b]));
            }
            let k = lemma_insert_sorted(ts, d, x);
            let dk = d.subrange(0, k) + seq![x] + d.subrange(k, d.len() as int);
            let r = o.subrange(0, k) + seq![x] + o.subrange(k, n);
            assert(r =~= dk.push(last));
            assert forall|a: int, b: int| 0 <= a < b < r.len() implies goes_before(ts, #[trigger] r[a], #[trigger] r[b]) by {
                if b == n {
                    if a == k {
                        assert(r[a] == x);
                    } else if a < k {
                        assert(r[a] == o[a]);
                        assert(goes_before(ts, o[a], o[n - 1]));
                    } else {
                        assert(r[a] == o[a - 1]);
                        assert(goes_before(ts, o[a - 1], o[n - 1]));
                    }
                } else {
                    assert(r[a] == dk[a] && r[b] == dk[b]);
                }
            }
            k
        }
    }
}

/// Every list of torrents has a queue order (its queued torrents, sorted), so
/// the order evaluation walks is always defined.
pub proof fn lemma_queue_order_exists(ts: Seq<QueuedTorrent>)
    ensures
        is_queue_order(ts, queue_order(ts)),
    decreases ts.len(),
{
    let o = lemma_some_queue_order(ts, ts.len() as int);
    assert(is_queue_order(ts, o));
}

proof fn lemma_some_queue_order(ts: Seq<QueuedTorrent>, n: int) -> (o: Seq<int>)
    requires
        0 <= n <= ts.len(),
    ensures
        in_queue_order(ts, o),
        forall|k: int| 0 <= k < o.len() ==> 0 <= #[trigger] o[k] < n && is_queued(ts[o[k]]),
        forall|i: int| 0 <= i < n && is_queued(#[trigger] ts[i]) ==> o.contains(i),
    decreases n,
{
    if n == 0 {
        seq![]
    } else {
        let o1 = lemma_some_queue_order(ts, n - 1);
        if !is_queued(ts[n - 1]) {
            o1
        } else {
            let x = n - 1;
            let k = lemma_insert_sorted(ts, o1, x);
            let o = o1.subrange(0, k) + seq![x] + o1.subrange(k, o1.len() as int);
            assert forall|p: int| 0 <= p < o.len() implies 0 <= #[trigger] o[p] < n && is_queued(ts[o[p]]) by {
                if p < k {
                    assert(o[p] == o1[p]);
                } else if p > k {
                    assert(o[p] == o1[p - 1]);
                }
            }
            assert forall|i: int| 0 <= i < n && is_queued(#[trigger] ts[i]) implies o.contains(i) by {
                if i == x {
                    assert(o[k] == x);
                } else {
                    assert(o1.contains(i));
                    let q = choose|q: int| 0 <= q < o1.len() && o1[q] == i;
                    if q < k {
                        assert(o[q] == i);
                    } else {
                        assert(o[q + 1] == i);
                    }
                }
            }
            o
        }
    }
}

// ─── Queue Manager ──────────────────────────────────────────

/// Manages active download/upload/total limits.
pub struct QueueManager {
    config: QueueSettings,
    torrents: Vec<QueuedTorrent>,
}

impl QueueManager {
    /// The tracked torrents, in registration order.
    pub closed spec fn torrents(&self) -> Seq<QueuedTorrent> {
        self.torrents@
    }

    /// The limits in force.
    pub closed spec fn config(&self) -> QueueSettings {
        self.config
    }

    /// A queue manager tracking no torrents.
    pub fn new(config: QueueSettings) -> (m: QueueManager)
        ensures
            m.config() == config,
            m.torrents() == Seq::<QueuedTorrent>::empty(),
    {
        QueueManager { config, torrents: Vec::new() }
    }

    /// Register a torrent.
    pub fn register(&mut self, torrent: QueuedTorrent)
        ensures
            final(self).torrents() == old(self).torrents().push(torrent),
            final(self).config() == old(self).config(),
    {
        self.torrents.push(torrent);
    }

    /// The position of the first torrent with id `id`.
    fn find_index(&self, id: &String) -> (r: Option<usize>)
        ensures
            match r {
                Some(j) => first_with_id(self.torrents(), id@) == Some(j as int) && j < self.torrents().len(),
                None => first_with_id(self.torrents(), id@) == None::<int>,
            },
    {
        let ghost ts = self.torrents@;
        let mut j: usize = 0;
        while j < self.torrents.len()
            invariant
                j <= ts.len(),
                ts == self.torrents@,
                forall|k: int| 0 <= k < j ==> ts[k].id@ != id@,
            decreases ts.len() - j,
        {
            if self.torrents[j].id == *id {
                proof {
                    let w = choose|w: int| 0 <= w < ts.len() && ts[w].id@ == id@ && forall|k: int| 0 <= k < w ==> ts[k].id@ != id@;
                    if w < j {
                    } else if w > j {
                        assert(ts[j as int].id@ == id@);
                    }
                }
                return Some(j);
            }
            j = j + 1;
        }
        None
    }

    /// Remove every torrent with id `id`.
    pub fn unregister(&mut self, id: &str)
        ensures
            final(self).torrents() == without_id(old(self).torrents(), id@),
            final(self).config() == old(self).config(),
    {
        let ghost ts = self.torrents@;
        let key = String::from_str(id);
        let mut kept: Vec<QueuedTorrent> = Vec::new();
        let mut j: usize = 0;
        while j < self.torrents.len()
            invariant
                j <= ts.len(),
                ts == self.torrents@,
                key@ == id@,
                kept@ == without_id(ts.subrange(0, j as int), id@),
            decreases ts.len() - j,
        {
            proof {
                assert(ts.subrange(0, j + 1).subrange(0, j as int) =~= ts.subrange(0, j as int));
            }
            if !(self.torrents[j].id == key) {
                kept.push(self.torrents[j].duplicate());
            }
            j = j + 1;
        }
        assert(ts.subrange(0, j as int) =~= ts);
        self.torrents = kept;
    }

    /// Update the stats of the first torrent with id `id` (if any).
    pub fn update_stats(
        &mut self,
        id: &str,
        dl_speed: u64,
        ul_speed: u64,
        is_downloading: bool,
        is_seeding: bool,
    )
        ensures
            final(self).config() == old(self).config(),
            final(self).torrents() == match first_with_id(old(self).torrents(), id@) {
                Some(j) => old(self).torrents().update(
                    j,
                    QueuedTorrent {
                        download_speed: dl_speed,
                        upload_speed: ul_speed,
                        is_downloading,
                        is_seeding,
                        ..old(self).torrents()[j]
                    },
                ),
                None => old(self).torrents(),
            },
    {
        let key = String::from_str(id);
        match self.find_index(&key) {
            Some(j) => {
                let mut t = self.torrents[j].duplicate();
                t.download_speed = dl_speed;
                t.upload_speed = ul_speed;
                t.is_downloading = is_downloading;
                t.is_seeding = is_seeding;
                self.torrents.set(j, t);
            },
            None => {},
        }
    }

    /// Force-start the first torrent with id `id` (bypasses queue limits).
    pub fn force_start(&mut self, id: &str)
        ensures
            final(self).config() == old(self).config(),
            final(self).torrents() == match first_with_id(old(self).torrents(), id@) {
                Some(j) => old(self).torrents().update(
                    j,
                    QueuedTorrent {
                        force_started: true,
                        queue_position: QueuePosition::ForceStarted,
                        ..old(self).torrents()[j]
                    },
                ),
                None => old(self).torrents(),
            },
    {
        let key = String::from_str(id);
        match self.find_index(&key) {
            Some(j) => {
                let mut t = self.torrents[j].duplicate();
                t.force_started = true;
                t.queue_position = QueuePosition::ForceStarted;
                self.torrents.set(j, t);
            },
            None => {},
        }
    }

    /// Set the priority of the first torrent with id `id` (higher is dequeued first).
    pub fn set_priority(&mut self, id: &str, priority: i32)
        ensures
            final(self).config() == old(self).config(),
            final(self).torrents() == match first_with_id(old(self).torrents(), id@) {
                Some(j) => old(self).torrents().update(
                    j,
                    QueuedTorrent { priority, ..old(self).torrents()[j] },
                ),
                None => old(self).torrents(),
            },
    {
        let key = String::from_str(id);
        match self.find_index(&key) {
            Some(j) => {
                let mut t = self.torrents[j].duplicate();
                t.priority = priority;
                self.torrents.set(j, t);
            },
            None => {},
        }
    }

    /// Whether a torrent is slow per the configured thresholds.
    fn is_slow(&self, torrent: &QueuedTorrent) -> (r: bool)
        ensures
            r == slow(*torrent, self.config()),
    {
        if torrent.is_downloading {
            return torrent.download_speed < self.config.slow_torrent_dl_threshold;
        }
        if torrent.is_seeding {
            return torrent.upload_speed < self.config.slow_torrent_ul_threshold;
        }
        false
    }

    /// The queue position of the first torrent with id `id`.
    pub fn get_position(&self, id: &str) -> (r: Option<QueuePosition>)
        ensures
            r == match first_with_id(self.torrents(), id@) {
                Some(j) => Some(self.torrents()[j].queue_position),
                None => None::<QueuePosition>,
            },
    {
        let key = String::from_str(id);
        match self.find_index(&key) {
            Some(j) => Some(self.torrents[j].queue_position),
            None => None,
        }
    }

    /// Every torrent's id and position, in registration order.
    pub fn get_all_positions(&self) -> (r: Vec<(String, QueuePosition)>)
        ensures
            r@.len() == self.torrents().len(),
            forall|i: int|
                0 <= i < r@.len() ==> (#[trigger] r@[i]).0 == self.torrents()[i].id && r@[i].1
                    == self.torrents()[i].queue_position,
    {
        let mut out: Vec<(String, QueuePosition)> = Vec::new();
        let mut j: usize = 0;
        while j < self.torrents.len()
            invariant
                j <= self.torrents@.len(),
                out@.len() == j,
                forall|i: int|
                    0 <= i < j ==> (#[trigger] out@[i]).0 == self.torrents@[i].id && out@[i].1
                        == self.torrents@[i].queue_position,
            decreases self.torrents@.len() - j,
        {
            out.push((self.torrents[j].id.clone(), self.torrents[j].queue_position));
            j = j + 1;
        }
        out
    }

    /// Evaluate the queue: count the slots in use; where more torrents hold a
    /// slot than the total limit allows, send the ones past the limit (in list
    /// order) back to the queue. Otherwise walk the queued torrents in queue
    /// order (priority, then age) promoting each whose per-type limit still has
    /// room, until the total limit is reached. Promoted torrents become active;
    /// the torrents queued afterwards are numbered 1, 2, ... in list order.
    pub fn evaluate(&mut self) -> (actions: QueueActions)
        requires
            old(self).torrents().len() < u32::MAX,
        ensures
            final(self).config() == old(self).config(),
            actions.to_start@ == ids_at(old(self).torrents(), promoted(old(self).torrents(), old(self).config())),
            actions.to_queue@ == ids_at(old(self).torrents(), demoted(old(self).torrents(), old(self).config())),
            final(self).torrents() == renumber(
                demote_at(
                    mark_all_active(old(self).torrents(), actions.to_start@),
                    demoted(old(self).torrents(), old(self).config()),
                ),
            ),
    {
        let ghost ts = self.torrents@;
        let ghost cfg = self.config;
        let n = self.torrents.len();

        // Count slots in use (force-started torrents never count).
        let mut dl: u32 = 0;
        let mut ul: u32 = 0;
        let mut total: u32 = 0;
        let mut holders: Vec<usize> = Vec::new();
        let mut i: usize = 0;
        while i < n
            invariant
                i <= n == ts.len() < u32::MAX,
                ts == self.torrents@,
                cfg == self.config,
                (dl as nat, ul as nat, total as nat) == slot_counts(ts.subrange(0, i as int), cfg),
                holders@.len() == total,
                forall|p: int| 0 <= p < holders@.len() ==> #[trigger] holders@[p] < i,
                forall|p: int| 0 <= p < holders@.len() ==> #[trigger] holders@[p] as int == slot_holders(ts, cfg, i as int)[p],
                slot_holders(ts, cfg, i as int).len() == holders@.len(),
                dl <= total,
                ul <= total,
                total <= i,
            decreases n - i,
        {
            proof {
                assert(ts.subrange(0, i + 1).subrange(0, i as int) =~= ts.subrange(0, i as int));
            }
            let t = &self.torrents[i];
            if !t.force_started && t.queue_position == QueuePosition::Active {
                let is_slow = self.is_slow(t);
                if !(self.config.exclude_slow_from_count && is_slow) {
                    if t.is_downloading {
                        dl = dl + 1;
                    }
                    if t.is_seeding {
                        ul = ul + 1;
                    }
                    total = total + 1;
                    holders.push(i);
                }
            }
            i = i + 1;
        }
        assert(ts.subrange(0, n as int) =~= ts);
        let ghost hs = slot_holders(ts, cfg, n as int);

        // Collect the queued torrents' sort keys.
        let mut keys: Vec<(i64, u64, usize)> = Vec::new();
        let mut i: usize = 0;
        while i < n
            invariant
                i <= n == ts.len() < u32::MAX,
                ts == self.torrents@,
                forall|k: int| 0 <= k < keys@.len() ==> (#[trigger] keys@[k]).2 < i && keys@[k] == queue_key(ts, keys@[k].2 as int)
                    && is_queued(ts[keys@[k].2 as int]),
                forall|a: int, b: int| 0 <= a < b < keys@.len() ==> (#[trigger] keys@[a]).2 < (#[trigger] keys@[b]).2,
                forall|j: int| 0 <= j < i && is_queued(#[trigger] ts[j]) ==> exists|k: int| 0 <= k < keys@.len() && keys@[k].2 == j,
            decreases n - i,
        {
            let ghost before = keys@;
            match self.torrents[i].queue_position {
                QueuePosition::Queued(_) => {
                    let key = (-(self.torrents[i].priority as i64), self.torrents[i].added_at, i);
                    keys.push(key);
                    assert(keys@[keys@.len() - 1].2 == i);
                },
                _ => {},
            }
            proof {
                assert forall|j: int| 0 <= j < i + 1 && is_queued(#[trigger] ts[j]) implies exists|k: int|
                    0 <= k < keys@.len() && keys@[k].2 == j by {
                    if j == i {
                        assert(keys@[keys@.len() - 1].2 == j);
                    } else {
                        let k0 = choose|k: int| 0 <= k < before.len() && before[k].2 == j;
                        assert(keys@[k0] == before[k0]);
                    }
                }
            }
            i = i + 1;
        }
        let ghost built = keys@;
        proof {
            assert(built.no_duplicates()) by {
                assert forall|a: int, b: int| 0 <= a < built.len() && 0 <= b < built.len() && a != b implies built[a] != built[b] by {
                    if a < b {
                        assert(built[a].2 < built[b].2);
                    } else {
                        assert(built[b].2 < built[a].2);
                    }
                }
            }
            built.lemma_multiset_has_no_duplicates();
        }
        sort_keys(&mut keys);
        let ghost sorted = keys@;
        let ghost o = sorted.map_values(|k: (i64, u64, usize)| k.2 as int);
        proof {
            sorted.lemma_multiset_has_no_duplicates_conv();
            assert forall|k: int| 0 <= k < sorted.len() implies built.contains(#[trigger] sorted[k]) by {
                assert(sorted.contains(sorted[k]));
                vstd::seq_lib::to_multiset_contains(sorted, sorted[k]);
                vstd::seq_lib::to_multiset_contains(built, sorted[k]);
            }
            assert forall|k: int| 0 <= k < o.len() implies 0 <= #[trigger] o[k] < ts.len() && is_queued(ts[o[k]])
                && sorted[k] == queue_key(ts, o[k]) by {
                assert(built.contains(sorted[k]));
                let w = choose|w: int| 0 <= w < built.len() && built[w] == sorted[k];
                assert(built[w].2 < n);
            }
            assert forall|j: int| 0 <= j < ts.len() && is_queued(#[trigger] ts[j]) implies o.contains(j) by {
                let w = choose|w: int| 0 <= w < built.len() && built[w].2 == j;
                assert(built.contains(built[w]));
                vstd::seq_lib::to_multiset_contains(built, built[w]);
                vstd::seq_lib::to_multiset_contains(sorted, built[w]);
                let p = choose|p: int| 0 <= p < sorted.len() && sorted[p] == built[w];
                assert(o[p] == j);
            }
            assert forall|a: int, b: int| 0 <= a < b < o.len() implies goes_before(ts, #[trigger] o[a], #[trigger] o[b]) by {
                assert(key_le(sorted[a], sorted[b]));
                assert(sorted[a] != sorted[b]);
                assert(sorted[a] == queue_key(ts, o[a]));
                assert(sorted[b] == queue_key(ts, o[b]));
            }
            assert(is_queue_order(ts, o));
            let q = queue_order(ts);
            assert(is_queue_order(ts, q));
            assert forall|x: int| o.contains(x) <==> q.contains(x) by {
                if o.contains(x) {
                    let p = choose|p: int| 0 <= p < o.len() && o[p] == x;
                    assert(0 <= o[p] < ts.len() && is_queued(ts[o[p]]));
                }
                if q.contains(x) {
                    let p = choose|p: int| 0 <= p < q.len() && q[p] == x;
                    assert(0 <= q[p] < ts.len() && is_queued(ts[q[p]]));
                }
            }
            lemma_order_unique(ts, o, q);
        }

        // Promote along the queue order.
        let ghost dl0 = dl as nat;
        let ghost ul0 = ul as nat;
        let ghost tot0 = total as nat;
        let m = keys.len();
        let mut to_start: Vec<String> = Vec::new();
        let ghost mut started: Seq<int> = seq![];
        let mut k: usize = 0;
        assert(o.subrange(0, m as int) =~= o);
        while k < m && total < self.config.max_active_total
            invariant
                k <= m == o.len() == sorted.len(),
                keys@ == sorted,
                ts == self.torrents@,
                cfg == self.config,
                forall|p: int| 0 <= p < o.len() ==> 0 <= #[trigger] o[p] < ts.len() && o[p] == sorted[p].2,
                started + promote(ts, o.subrange(k as int, m as int), cfg, dl as nat, ul as nat, total as nat)
                    == promote(ts, o, cfg, dl0, ul0, tot0),
                to_start@ == ids_at(ts, started),
                dl <= total,
                ul <= total,
            decreases m - k,
        {
            let idx = keys[k].2;
            let ghost rest = o.subrange(k as int, m as int);
            assert(rest.subrange(1, rest.len() as int) =~= o.subrange(k + 1, m as int));
            assert(rest[0] == idx);
            let t = &self.torrents[idx];
            let blocked = (t.is_downloading && dl >= self.config.max_active_downloads) || (t.is_seeding
                && ul >= self.config.max_active_uploads);
            if !blocked {
                to_start.push(t.id.clone());
                proof {
                    assert(seq![idx as int] + promote(ts, o.subrange(k + 1, m as int), cfg,
                        dl as nat + if t.is_downloading { 1nat } else { 0nat },
                        ul as nat + if t.is_seeding { 1nat } else { 0nat },
                        total as nat + 1) == promote(ts, rest, cfg, dl as nat, ul as nat, total as nat));
                    assert(started.push(idx as int) + promote(ts, o.subrange(k + 1, m as int), cfg,
                        dl as nat + if t.is_downloading { 1nat } else { 0nat },
                        ul as nat + if t.is_seeding { 1nat } else { 0nat },
                        total as nat + 1) =~= started + (seq![idx as int] + promote(ts, o.subrange(k + 1, m as int), cfg,
                        dl as nat + if t.is_downloading { 1nat } else { 0nat },
                        ul as nat + if t.is_seeding { 1nat } else { 0nat },
                        total as nat + 1)));
                    assert(ids_at(ts, started.push(idx as int)) =~= ids_at(ts, started).push(ts[idx as int].id));
                    started = started.push(idx as int);
                }
                if t.is_downloading {
                    dl = dl + 1;
                }
                if t.is_seeding {
                    ul = ul + 1;
                }
                total = total + 1;
            }
            k = k + 1;
        }
        proof {
            let rest = o.subrange(k as int, m as int);
            assert(promote(ts, rest, cfg, dl as nat, ul as nat, total as nat) =~= Seq::<int>::empty());
            assert(started + Seq::<int>::empty() =~= started);
        }

        // Mark the promoted torrents active.
        let ghost ids = to_start@;
        let mut s: usize = 0;
        assert(ids.subrange(0, 0) =~= Seq::<String>::empty());
        while s < to_start.len()
            invariant
                s <= ids.len(),
                to_start@ == ids,
                cfg == self.config,
                self.torrents@ == mark_all_active(ts, ids.subrange(0, s as int)),
                self.torrents@.len() == ts.len(),
            decreases ids.len() - s,
        {
            proof {
                assert(ids.subrange(0, s + 1).subrange(0, s as int) =~= ids.subrange(0, s as int));
            }
            match self.find_index(&to_start[s]) {
                Some(j) => {
                    let mut t = self.torrents[j].duplicate();
                    t.queue_position = QueuePosition::Active;
                    self.torrents.set(j, t);
                },
                None => {},
            }
            s = s + 1;
        }
        assert(ids.subrange(0, s as int) =~= ids);

        // Send the slot holders past the total limit back to the queue.
        let ghost marked = self.torrents@;
        let ghost dem = demoted(ts, cfg);
        let mut to_queue: Vec<String> = Vec::new();
        let limit = self.config.max_active_total as usize;
        if holders.len() > limit {
            proof {
                assert(tot0 >= cfg.max_active_total);
                assert(promote(ts, o, cfg, dl0, ul0, tot0).len() == 0);
                assert(ids.len() == 0);
                assert(marked == ts);
                assert forall|p: int| 0 <= p < hs.len() implies 0 <= #[trigger] hs[p] < n by {
                    assert(holders@[p] as int == hs[p]);
                }
            }
            let mut d: usize = limit;
            assert(hs.subrange(limit as int, limit as int) =~= Seq::<int>::empty());
            assert(demote_at(marked, Seq::<int>::empty()) =~= marked);
            while d < holders.len()
                invariant
                    limit <= d <= holders@.len() == hs.len(),
                    limit == cfg.max_active_total,
                    cfg == self.config,
                    forall|p: int| 0 <= p < holders@.len() ==> #[trigger] holders@[p] as int == hs[p],
                    forall|p: int| 0 <= p < hs.len() ==> 0 <= #[trigger] hs[p] < n,
                    self.torrents@.len() == n == marked.len(),
                    marked == ts,
                    self.torrents@ == demote_at(marked, hs.subrange(limit as int, d as int)),
                    to_queue@ == ids_at(ts, hs.subrange(limit as int, d as int)),
                decreases holders@.len() - d,
            {
                let j = holders[d];
                let ghost before = hs.subrange(limit as int, d as int);
                let ghost after = hs.subrange(limit as int, d + 1);
                assert(after =~= before.push(j as int));
                let mut t = self.torrents[j].duplicate();
                t.queue_position = QueuePosition::Queued(0);
                self.torrents.set(j, t);
                to_queue.push(self.torrents[j].id.clone());
                proof {
                    assert forall|i: int| 0 <= i < n implies #[trigger] self.torrents@[i] == demote_at(marked, after)[i] by {
                        if before.contains(i) {
                            let w = choose|w: int| 0 <= w < before.len() && before[w] == i;
                            assert(after[w] == i);
                        }
                        if after.contains(i) && i != j {
                            let w = choose|w: int| 0 <= w < after.len() && after[w] == i;
                            assert(w < before.len());
                            assert(before[w] == i);
                        }
                        if i == j {
                            assert(after[after.len() - 1] == i);
                        }
                    }
                    assert(self.torrents@ =~= demote_at(marked, after));
                    assert(ids_at(ts, after) =~= ids_at(ts, before).push(ts[j as int].id));
                }
                d = d + 1;
            }
            assert(hs.subrange(limit as int, d as int) == dem);
        } else {
            assert(dem =~= Seq::<int>::empty());
            assert(demote_at(marked, dem) =~= marked);
            assert(ids_at(ts, dem) =~= Seq::<String>::empty());
        }

        // Number the torrents still queued.
        let ghost tt = self.torrents@;
        let mut pos: u32 = 1;
        let mut i: usize = 0;
        while i < n
            invariant
                i <= n == tt.len() < u32::MAX,
                cfg == self.config,
                self.torrents@.len() == n,
                forall|p: int| 0 <= p < i ==> self.torrents@[p] == renumber(tt)[p],
                forall|p: int| i <= p < n ==> self.torrents@[p] == tt[p],
                pos == queued_count(tt.subrange(0, i as int)) + 1,
                pos <= i + 1,
            decreases n - i,
        {
            proof {
                lemma_queued_count_step(tt, i as int);
            }
            match self.torrents[i].queue_position {
                QueuePosition::Queued(_) => {
                    let mut t = self.torrents[i].duplicate();
                    t.queue_position = QueuePosition::Queued(pos);
                    self.torrents.set(i, t);
                    pos = pos + 1;
                },
                _ => {},
            }
            i = i + 1;
        }
        assert(self.torrents@ =~= renumber(tt));
        QueueActions { to_start, to_queue }
    }

    /// Replace the limits.
    pub fn update_config(&mut self, new_config: QueueSettings)
        ensures
            final(self).config() == new_config,
            final(self).torrents() == old(self).torrents(),
    {
        self.config = new_config;
    }
}

} // verus!
