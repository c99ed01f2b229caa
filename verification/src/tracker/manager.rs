//! Per-torrent tracker state: tiers, announce status, health scoring.

use vstd::prelude::*;

verus! {

// ─── Types ──────────────────────────────────────────────────

#[derive(Debug, Clone, Copy, PartialEq, Eq, Structural)]
pub enum TrackerStatus {
    Working,
    Updating,
    NotContacted,
    Error,
    Disabled,
}

#[derive(Debug)]
pub struct TrackerEntry {
    pub url: String,
    pub tier: u8,
    pub status: TrackerStatus,
    pub seeders: u32,
    pub leechers: u32,
    pub downloaded: u32,
    pub last_announce_secs_ago: Option<u64>,
    pub next_announce_secs: Option<u64>,
    pub last_error: Option<String>,
    pub announce_count: u32,
    pub fail_count: u32,
    pub consecutive_fails: u32,
    /// Health score: (success * 10) - (fail * 5) - (consecutive_fails * 20)
    pub health_score: i32,
}

/// The health score a tracker's counters give.
pub open spec fn health(announces: u32, fails: u32, consecutive: u32) -> int {
    announces as int * 10 - fails as int * 5 - consecutive as int * 20
}

/// Whether the health computation stays within 32-bit signed arithmetic.
pub open spec fn health_fits(announces: u32, fails: u32, consecutive: u32) -> bool {
    announces as int * 10 <= i32::MAX && fails as int * 5 <= i32::MAX && consecutive as int * 20
        <= i32::MAX && health(announces, fails, consecutive) >= i32::MIN
}

/// Whether recording a success on `e` stays within its counters' ranges.
pub open spec fn success_fits(e: TrackerEntry) -> bool {
    e.announce_count < u32::MAX && health_fits((e.announce_count + 1) as u32, e.fail_count, 0)
}

/// Whether recording a failure on `e` stays within its counters' ranges.
pub open spec fn failure_fits(e: TrackerEntry) -> bool {
    e.fail_count < u32::MAX && e.consecutive_fails < u32::MAX && health_fits(
        e.announce_count,
        (e.fail_count + 1) as u32,
        (e.consecutive_fails + 1) as u32,
    )
}

/// The entry after a successful announce.
pub open spec fn after_success(e: TrackerEntry, seeders: u32, leechers: u32, downloaded: u32) -> TrackerEntry {
    TrackerEntry {
        status: TrackerStatus::Working,
        seeders,
        leechers,
        downloaded,
        announce_count: (e.announce_count + 1) as u32,
        consecutive_fails: 0,
        last_error: None,
        health_score: health((e.announce_count + 1) as u32, e.fail_count, 0) as i32,
        ..e
    }
}

/// The entry after a failed announce: in error, or disabled once health drops below -50.
pub open spec fn after_failure(e: TrackerEntry, error: String) -> TrackerEntry {
    let h = health(e.announce_count, (e.fail_count + 1) as u32, (e.consecutive_fails + 1) as u32);
    TrackerEntry {
        status: if h < -50 {
            TrackerStatus::Disabled
        } else {
            TrackerStatus::Error
        },
        fail_count: (e.fail_count + 1) as u32,
        consecutive_fails: (e.consecutive_fails + 1) as u32,
        last_error: Some(error),
        health_score: h as i32,
        ..e
    }
}

/// The entry after it is re-enabled.
pub open spec fn after_enable(e: TrackerEntry) -> TrackerEntry {
    TrackerEntry {
        status: TrackerStatus::NotContacted,
        consecutive_fails: 0,
        health_score: health(e.announce_count, e.fail_count, 0) as i32,
        ..e
    }
}

/// A fresh entry for `url` in `tier`.
pub open spec fn fresh_entry(url: String, tier: u8) -> TrackerEntry {
    TrackerEntry {
        url,
        tier,
        status: TrackerStatus::NotContacted,
        seeders: 0,
        leechers: 0,
        downloaded: 0,
        last_announce_secs_ago: None,
        next_announce_secs: None,
        last_error: None,
        announce_count: 0,
        fail_count: 0,
        consecutive_fails: 0,
        health_score: 0,
    }
}

impl TrackerEntry {
    /// A tracker not yet contacted.
    pub fn new(url: String, tier: u8) -> (e: TrackerEntry)
        ensures
            e == fresh_entry(url, tier),
    {
        TrackerEntry {
            url,
            tier,
            status: TrackerStatus::NotContacted,
            seeders: 0,
            leechers: 0,
            downloaded: 0,
            last_announce_secs_ago: None,
            next_announce_secs: None,
            last_error: None,
            announce_count: 0,
            fail_count: 0,
            consecutive_fails: 0,
            health_score: 0,
        }
    }

    /// An identical copy.
    pub fn duplicate(&self) -> (r: TrackerEntry)
        ensures
            r == *self,
    {
        TrackerEntry {
            url: self.url.clone(),
            tier: self.tier,
            status: self.status,
            seeders: self.seeders,
            leechers: self.leechers,
            downloaded: self.downloaded,
            last_announce_secs_ago: self.last_announce_secs_ago,
            next_announce_secs: self.next_announce_secs,
            last_error: match &self.last_error {
                Some(e) => Some(e.clone()),
                None => None,
            },
            announce_count: self.announce_count,
            fail_count: self.fail_count,
            consecutive_fails: self.consecutive_fails,
            health_score: self.health_score,
        }
    }

    /// Update after a successful announce.
    pub fn record_success(&mut self, seeders: u32, leechers: u32, downloaded: u32)
        requires
            success_fits(*old(self)),
        ensures
            *final(self) == after_success(*old(self), seeders, leechers, downloaded),
    {
        self.status = TrackerStatus::Working;
        self.seeders = seeders;
        self.leechers = leechers;
        self.downloaded = downloaded;
        self.announce_count = self.announce_count + 1;
        self.consecutive_fails = 0;
        self.last_error = None;
        self.recalc_health();
    }

    /// Update after a failed announce; auto-disable once health falls below -50.
    pub fn record_failure(&mut self, error: String)
        requires
            failure_fits(*old(self)),
        ensures
            *final(self) == after_failure(*old(self), error),
    {
        self.status = TrackerStatus::Error;
        self.fail_count = self.fail_count + 1;
        self.consecutive_fails = self.consecutive_fails + 1;
        self.last_error = Some(error);
        self.recalc_health();
        if self.health_score < -50 {
            self.status = TrackerStatus::Disabled;
        }
    }

    /// Recompute the health score from the counters.
    pub fn recalc_health(&mut self)
        requires
            health_fits(old(self).announce_count, old(self).fail_count, old(self).consecutive_fails),
        ensures
            *final(self) == (TrackerEntry {
                health_score: health(
                    old(self).announce_count,
                    old(self).fail_count,
                    old(self).consecutive_fails,
                ) as i32,
                ..*old(self)
            }),
    {
        self.health_score = (self.announce_count as i32 * 10) - (self.fail_count as i32 * 5) - (
        self.consecutive_fails as i32 * 20);
    }
}

// ─── Tracker Manager ────────────────────────────────────────

/// The entries of the first tracker with `url`, if any.
pub open spec fn first_with_url(es: Seq<TrackerEntry>, url: Seq<char>) -> Option<int> {
    if exists|j: int| 0 <= j < es.len() && es[j].url@ == url && forall|k: int| 0 <= k < j ==> es[k].url@ != url {
        Some(choose|j: int| 0 <= j < es.len() && es[j].url@ == url && forall|k: int| 0 <= k < j ==> es[k].url@ != url)
    } else {
        None
    }
}

/// Whether some entry has `url`.
pub open spec fn has_url(es: Seq<TrackerEntry>, url: Seq<char>) -> bool {
    exists|j: int| 0 <= j < es.len() && (#[trigger] es[j]).url@ == url
}

/// The entries without those for `url`, in order.
pub open spec fn without_url(es: Seq<TrackerEntry>, url: Seq<char>) -> Seq<TrackerEntry>
    decreases es.len(),
{
    if es.len() == 0 {
        es
    } else {
        let p = without_url(es.subrange(0, es.len() - 1), url);
        if es[es.len() - 1].url@ == url {
            p
        } else {
            p.push(es[es.len() - 1])
        }
    }
}

/// The largest of `f` over the working entries, or 0.
pub open spec fn max_working(es: Seq<TrackerEntry>, seeders: bool) -> u32
    decreases es.len(),
{
    if es.len() == 0 {
        0
    } else {
        let p = max_working(es.subrange(0, es.len() - 1), seeders);
        let e = es[es.len() - 1];
        let v = if seeders {
            e.seeders
        } else {
            e.leechers
        };
        if e.status == TrackerStatus::Working && v > p {
            v
        } else {
            p
        }
    }
}

/// The tracker lists by torrent id that a keyed list of lists denotes.
pub open spec fn lists_of(v: Seq<(String, Vec<TrackerEntry>)>) -> Map<Seq<char>, Seq<TrackerEntry>> {
    Map::new(
        |id: Seq<char>| exists|i: int| 0 <= i < v.len() && (#[trigger] v[i]).0@ == id,
        |id: Seq<char>|
            {
                let i = choose|i: int| 0 <= i < v.len() && (#[trigger] v[i]).0@ == id;
                v[i].1@
            },
    )
}

/// Each torrent id appears at most once.
pub open spec fn keys_unique(v: Seq<(String, Vec<TrackerEntry>)>) -> bool {
    forall|a: int, b: int| 0 <= a < b < v.len() ==> (#[trigger] v[a]).0@ != (#[trigger] v[b]).0@
}

proof fn lemma_lookup(v: Seq<(String, Vec<TrackerEntry>)>, i: int)
    requires
        keys_unique(v),
        0 <= i < v.len(),
    ensures
        lists_of(v).contains_key(v[i].0@),
        lists_of(v)[v[i].0@] == v[i].1@,
{
    let id = v[i].0@;
    assert(v[i].0@ == id);
    let w = choose|w: int| 0 <= w < v.len() && (#[trigger] v[w]).0@ == id;
    if w != i {
        if w < i {
            assert(v[w].0@ != v[i].0@);
        } else {
            assert(v[i].0@ != v[w].0@);
        }
    }
}

proof fn lemma_set(v: Seq<(String, Vec<TrackerEntry>)>, i: int, k: String, e: Vec<TrackerEntry>)
    requires
        keys_unique(v),
        0 <= i < v.len(),
        k@ == v[i].0@,
    ensures
        keys_unique(v.update(i, (k, e))),
        lists_of(v.update(i, (k, e))) == lists_of(v).insert(k@, e@),
{
    let u = v.update(i, (k, e));
    assert forall|a: int, b: int| 0 <= a < b < u.len() implies (#[trigger] u[a]).0@ != (#[trigger] u[b]).0@ by {
        assert(v[a].0@ != v[b].0@);
    }
    assert forall|id: Seq<char>| #[trigger] lists_of(u).contains_key(id) == lists_of(v).insert(k@, e@).contains_key(id) by {
        if lists_of(u).contains_key(id) {
            let w = choose|w: int| 0 <= w < u.len() && (#[trigger] u[w]).0@ == id;
            if w != i {
                assert(v[w].0@ == id);
            }
        }
        if lists_of(v).contains_key(id) {
            let w = choose|w: int| 0 <= w < v.len() && (#[trigger] v[w]).0@ == id;
            assert(u[w].0@ == id);
        }
        if id == k@ {
            assert(u[i].0@ == id);
        }
    }
    assert forall|id: Seq<char>| #[trigger] lists_of(u).contains_key(id) implies lists_of(u)[id] == lists_of(v).insert(k@, e@)[id] by {
        let w = choose|w: int| 0 <= w < u.len() && (#[trigger] u[w]).0@ == id;
        lemma_lookup(u, w);
        if w != i {
            assert(v[w] == u[w]);
            lemma_lookup(v, w);
        }
    }
    assert(lists_of(u) =~= lists_of(v).insert(k@, e@));
}

proof fn lemma_push(v: Seq<(String, Vec<TrackerEntry>)>, k: String, e: Vec<TrackerEntry>)
    requires
        keys_unique(v),
        !lists_of(v).contains_key(k@),
    ensures
        keys_unique(v.push((k, e))),
        lists_of(v.push((k, e))) == lists_of(v).insert(k@, e@),
{
    let u = v.push((k, e));
    assert forall|a: int, b: int| 0 <= a < b < u.len() implies (#[trigger] u[a]).0@ != (#[trigger] u[b]).0@ by {
        if b == v.len() {
            if v[a].0@ == k@ {
                assert(lists_of(v).contains_key(k@));
            }
        } else {
            assert(v[a].0@ != v[b].0@);
        }
    }
    assert forall|id: Seq<char>| #[trigger] lists_of(u).contains_key(id) == lists_of(v).insert(k@, e@).contains_key(id) by {
        if lists_of(u).contains_key(id) {
            let w = choose|w: int| 0 <= w < u.len() && (#[trigger] u[w]).0@ == id;
            if w < v.len() {
                assert(v[w].0@ == id);
            }
        }
        if lists_of(v).contains_key(id) {
            let w = choose|w: int| 0 <= w < v.len() && (#[trigger] v[w]).0@ == id;
            assert(u[w].0@ == id);
        }
        if id == k@ {
            assert(u[v.len() as int].0@ == id);
        }
    }
    assert forall|id: Seq<char>| #[trigger] lists_of(u).contains_key(id) implies lists_of(u)[id] == lists_of(v).insert(k@, e@)[id] by {
        let w = choose|w: int| 0 <= w < u.len() && (#[trigger] u[w]).0@ == id;
        lemma_lookup(u, w);
        if w < v.len() {
            assert(v[w] == u[w]);
            lemma_lookup(v, w);
        }
    }
    assert(lists_of(u) =~= lists_of(v).insert(k@, e@));
}

proof fn lemma_remove(v: Seq<(String, Vec<TrackerEntry>)>, i: int)
    requires
        keys_unique(v),
        0 <= i < v.len(),
    ensures
        keys_unique(v.remove(i)),
        lists_of(v.remove(i)) == lists_of(v).remove(v[i].0@),
{
    let u = v.remove(i);
    let key = v[i].0@;
    assert forall|a: int, b: int| 0 <= a < b < u.len() implies (#[trigger] u[a]).0@ != (#[trigger] u[b]).0@ by {
        let a1 = if a < i { a } else { a + 1 };
        let b1 = if b < i { b } else { b + 1 };
        assert(u[a] == v[a1] && u[b] == v[b1]);
        assert(v[a1].0@ != v[b1].0@);
    }
    assert forall|id: Seq<char>| #[trigger] lists_of(u).contains_key(id) == lists_of(v).remove(key).contains_key(id) by {
        if lists_of(u).contains_key(id) {
            let w = choose|w: int| 0 <= w < u.len() && (#[trigger] u[w]).0@ == id;
            let w1 = if w < i { w } else { w + 1 };
            assert(v[w1] == u[w]);
            assert(v[w1].0@ != v[i].0@);
        }
        if lists_of(v).contains_key(id) && id != key {
            let w = choose|w: int| 0 <= w < v.len() && (#[trigger] v[w]).0@ == id;
            if w < i {
                assert(u[w].0@ == id);
            } else {
                assert(w != i);
                assert(u[w - 1].0@ == id);
            }
        }
    }
    assert forall|id: Seq<char>| #[trigger] lists_of(u).contains_key(id) implies lists_of(u)[id] == lists_of(v).remove(key)[id] by {
        let w = choose|w: int| 0 <= w < u.len() && (#[trigger] u[w]).0@ == id;
        lemma_lookup(u, w);
        let w1 = if w < i { w } else { w + 1 };
        assert(v[w1] == u[w]);
        lemma_lookup(v, w1);
    }
    assert(lists_of(u) =~= lists_of(v).remove(key));
}

/// The fresh entries for a list of (url, tier) pairs.
pub open spec fn fresh_entries(urls: Seq<(String, u8)>) -> Seq<TrackerEntry> {
    urls.map_values(|p: (String, u8)| fresh_entry(p.0, p.1))
}

/// The list after `f` is applied to the first entry with `url` (if any).
pub open spec fn update_first(
    es: Seq<TrackerEntry>,
    url: Seq<char>,
    f: spec_fn(TrackerEntry) -> TrackerEntry,
) -> Seq<TrackerEntry> {
    match first_with_url(es, url) {
        Some(j) => es.update(j, f(es[j])),
        None => es,
    }
}

/// Manages tracker state for all torrents.
pub struct TrackerManager {
    /// Per-torrent tracker lists, keyed by torrent id (each id at most once).
    trackers: Vec<(String, Vec<TrackerEntry>)>,
}

impl TrackerManager {
    /// Each torrent id appears at most once.
    pub closed spec fn wf(&self) -> bool {
        keys_unique(self.trackers@)
    }

    /// The tracker lists by torrent id.
    pub closed spec fn lists(&self) -> Map<Seq<char>, Seq<TrackerEntry>> {
        lists_of(self.trackers@)
    }

    /// The list of torrent `id` (empty if the torrent is unknown).
    pub open spec fn list_of(&self, id: Seq<char>) -> Seq<TrackerEntry> {
        if self.lists().contains_key(id) {
            self.lists()[id]
        } else {
            Seq::empty()
        }
    }

    /// A manager with no torrents.
    pub fn new() -> (m: TrackerManager)
        ensures
            m.wf(),
            m.lists() == Map::<Seq<char>, Seq<TrackerEntry>>::empty(),
    {
        let m = TrackerManager { trackers: Vec::new() };
        assert(m.lists() =~= Map::<Seq<char>, Seq<TrackerEntry>>::empty());
        m
    }

    /// Where the list of `id` is kept.
    fn slot(&self, id: &String) -> (r: Option<usize>)
        requires
            self.wf(),
        ensures
            match r {
                Some(i) => i < self.trackers@.len() && self.trackers@[i as int].0@ == id@
                    && self.lists().contains_key(id@) && self.lists()[id@] == self.trackers@[i as int].1@,
                None => !self.lists().contains_key(id@),
            },
    {
        let mut i: usize = 0;
        while i < self.trackers.len()
            invariant
                i <= self.trackers@.len(),
                keys_unique(self.trackers@),
                forall|k: int| 0 <= k < i ==> (#[trigger] self.trackers@[k]).0@ != id@,
            decreases self.trackers@.len() - i,
        {
            if self.trackers[i].0 == *id {
                proof {
                    lemma_lookup(self.trackers@, i as int);
                }
                return Some(i);
            }
            i = i + 1;
        }
        None
    }

    /// Take the list of `id` out (an empty list if the torrent is unknown); the
    /// caller puts it back with `put_back`.
    fn take_list(&mut self, key: &String) -> (r: (Option<usize>, Vec<TrackerEntry>))
        requires
            old(self).wf(),
        ensures
            final(self).wf(),
            final(self).lists() == old(self).lists().remove(key@),
            r.1@ == old(self).list_of(key@),
            match r.0 {
                Some(i) => i <= final(self).trackers@.len() && old(self).lists().contains_key(key@)
                    && final(self).trackers@ == old(self).trackers@.remove(i as int)
                    && old(self).trackers@[i as int].0@ == key@,
                None => !old(self).lists().contains_key(key@) && final(self).trackers@ == old(self).trackers@,
            },
    {
        match self.slot(key) {
            Some(i) => {
                proof {
                    lemma_remove(self.trackers@, i as int);
                }
                let (_k, list) = self.trackers.remove(i);
                (Some(i), list)
            },
            None => {
                assert(self.lists().remove(key@) =~= self.lists());
                (None, Vec::new())
            },
        }
    }

    /// Initialize (or replace) the trackers of a torrent.
    pub fn register_torrent(&mut self, torrent_id: &str, tracker_urls: Vec<(String, u8)>)
        requires
            old(self).wf(),
        ensures
            final(self).wf(),
            final(self).lists() == old(self).lists().insert(torrent_id@, fresh_entries(tracker_urls@)),
    {
        let mut entries: Vec<TrackerEntry> = Vec::new();
        let mut j: usize = 0;
        while j < tracker_urls.len()
            invariant
                j <= tracker_urls@.len(),
                entries@ == fresh_entries(tracker_urls@.subrange(0, j as int)),
            decreases tracker_urls@.len() - j,
        {
            let e = TrackerEntry::new(tracker_urls[j].0.clone(), tracker_urls[j].1);
            entries.push(e);
            j = j + 1;
            assert(fresh_entries(tracker_urls@.subrange(0, j as int)) =~= fresh_entries(
                tracker_urls@.subrange(0, j - 1),
            ).push(e));
        }
        assert(tracker_urls@.subrange(0, j as int) =~= tracker_urls@);
        let key = String::from_str(torrent_id);
        match self.slot(&key) {
            Some(i) => {
                proof {
                    lemma_set(self.trackers@, i as int, key, entries);
                }
                self.trackers.set(i, (key, entries));
            },
            None => {
                proof {
                    lemma_push(self.trackers@, key, entries);
                }
                self.trackers.push((key, entries));
            },
        }
    }

    /// Forget a torrent's trackers.
    pub fn unregister_torrent(&mut self, torrent_id: &str)
        requires
            old(self).wf(),
        ensures
            final(self).wf(),
            final(self).lists() == old(self).lists().remove(torrent_id@),
    {
        let key = String::from_str(torrent_id);
        match self.slot(&key) {
            Some(i) => {
                proof {
                    lemma_remove(self.trackers@, i as int);
                }
                self.trackers.remove(i);
            },
            None => {
                assert(self.lists().remove(torrent_id@) =~= self.lists());
            },
        }
    }

    /// The trackers of a torrent (none for an unknown torrent).
    pub fn get_trackers(&self, torrent_id: &str) -> (r: Vec<TrackerEntry>)
        requires
            self.wf(),
        ensures
            r@ == self.list_of(torrent_id@),
    {
        let key = String::from_str(torrent_id);
        match self.slot(&key) {
            None => Vec::new(),
            Some(i) => {
                let list = &self.trackers[i].1;
                let mut out: Vec<TrackerEntry> = Vec::new();
                let mut j: usize = 0;
                while j < list.len()
                    invariant
                        j <= list@.len(),
                        out@ == list@.subrange(0, j as int),
                    decreases list@.len() - j,
                {
                    out.push(list[j].duplicate());
                    j = j + 1;
                    assert(out@ =~= list@.subrange(0, j as int));
                }
                assert(list@.subrange(0, j as int) =~= list@);
                out
            },
        }
    }

    /// Put a list back after `take_list`.
    fn put_back(&mut self, pos: Option<usize>, key: String, list: Vec<TrackerEntry>)
        requires
            keys_unique(old(self).trackers@),
            !lists_of(old(self).trackers@).contains_key(key@),
            pos matches Some(i) ==> i <= old(self).trackers@.len(),
        ensures
            final(self).wf(),
            final(self).lists() == lists_of(old(self).trackers@).insert(key@, list@),
    {
        match pos {
            Some(i) => {
                let ghost before = self.trackers@;
                self.trackers.insert(i, (key, list));
                proof {
                    let u = self.trackers@;
                    assert(u.remove(i as int) =~= before);
                    assert forall|a: int, b: int| 0 <= a < b < u.len() implies (#[trigger] u[a]).0@ != (#[trigger] u[b]).0@ by {
                        if a == i {
                            let b1 = b - 1;
                            assert(u[b] == before[b1]);
                            if before[b1].0@ == key@ {
                                assert(lists_of(before).contains_key(key@));
                            }
                        } else if b == i {
                            assert(u[a] == before[a]);
                            if before[a].0@ == key@ {
                                assert(lists_of(before).contains_key(key@));
                            }
                        } else {
                            let a1 = if a < i { a } else { a - 1 };
                            let b1 = if b < i { b } else { b - 1 };
                            assert(u[a] == before[a1] && u[b] == before[b1]);
                        }
                    }
                    lemma_remove(u, i as int);
                    assert(lists_of(u) =~= lists_of(before).insert(key@, list@)) by {
                        lemma_lookup(u, i as int);
                        assert forall|id: Seq<char>| #[trigger] lists_of(u).contains_key(id) == lists_of(before).insert(key@, list@).contains_key(id) by {
                            if id != key@ {
                                assert(lists_of(u).remove(key@).contains_key(id) == lists_of(u).contains_key(id));
                            }
                        }
                        assert forall|id: Seq<char>| #[trigger] lists_of(u).contains_key(id) implies lists_of(u)[id] == lists_of(before).insert(key@, list@)[id] by {
                            if id != key@ {
                                assert(lists_of(u).remove(key@)[id] == lists_of(u)[id]);
                            }
                        }
                    }
                }
            },
            None => {
                proof {
                    lemma_push(self.trackers@, key, list);
                }
                self.trackers.push((key, list));
            },
        }
    }

    /// The position of the first entry with `url`.
    fn find_url(list: &Vec<TrackerEntry>, url: &String) -> (r: Option<usize>)
        ensures
            match r {
                Some(j) => j < list@.len() && first_with_url(list@, url@) == Some(j as int),
                None => first_with_url(list@, url@) == None::<int> && !has_url(list@, url@),
            },
    {
        let mut j: usize = 0;
        while j < list.len()
            invariant
                j <= list@.len(),
                forall|k: int| 0 <= k < j ==> list@[k].url@ != url@,
            decreases list@.len() - j,
        {
            if list[j].url == *url {
                proof {
                    let w = choose|w: int| 0 <= w < list@.len() && list@[w].url@ == url@ && forall|k: int| 0 <= k < w ==> list@[k].url@ != url@;
                    if w > j {
                        assert(list@[j as int].url@ == url@);
                    }
                }
                return Some(j);
            }
            j = j + 1;
        }
        None
    }

    /// Add a tracker to a torrent (creating its list if needed) unless the
    /// torrent already has a tracker with that url.
    pub fn add_tracker(&mut self, torrent_id: &str, url: String, tier: u8)
        requires
            old(self).wf(),
        ensures
            final(self).wf(),
            final(self).lists() == old(self).lists().insert(
                torrent_id@,
                if has_url(old(self).list_of(torrent_id@), url@) {
                    old(self).list_of(torrent_id@)
                } else {
                    old(self).list_of(torrent_id@).push(fresh_entry(url, tier))
                },
            ),
    {
        let key = String::from_str(torrent_id);
        let ghost before = self.lists();
        let (pos, mut list) = self.take_list(&key);
        let found = Self::find_url(&list, &url);
        match found {
            Some(j) => {
                proof {
                    assert(has_url(list@, url@)) by {
                        assert(list@[j as int].url@ == url@);
                    }
                }
            },
            None => {
                let e = TrackerEntry::new(url, tier);
                list.push(e);
            },
        }
        self.put_back(pos, key, list);
        assert(self.lists() =~= before.insert(torrent_id@, if has_url(before_list_of(before, torrent_id@), url@) {
            before_list_of(before, torrent_id@)
        } else {
            before_list_of(before, torrent_id@).push(fresh_entry(url, tier))
        }));
    }

    /// Remove the trackers with `url` from a torrent (an unknown torrent is left alone).
    pub fn remove_tracker(&mut self, torrent_id: &str, url: &str)
        requires
            old(self).wf(),
        ensures
            final(self).wf(),
            final(self).lists() == if old(self).lists().contains_key(torrent_id@) {
                old(self).lists().insert(torrent_id@, without_url(old(self).list_of(torrent_id@), url@))
            } else {
                old(self).lists()
            },
    {
        let key = String::from_str(torrent_id);
        let ghost before = self.lists();
        let (pos, list) = self.take_list(&key);
        if pos.is_none() {
            return;
        }
        let target = String::from_str(url);
        let mut kept: Vec<TrackerEntry> = Vec::new();
        let mut j: usize = 0;
        while j < list.len()
            invariant
                j <= list@.len(),
                target@ == url@,
                kept@ == without_url(list@.subrange(0, j as int), url@),
            decreases list@.len() - j,
        {
            proof {
                assert(list@.subrange(0, j + 1).subrange(0, j as int) =~= list@.subrange(0, j as int));
            }
            if !(list[j].url == target) {
                kept.push(list[j].duplicate());
            }
            j = j + 1;
        }
        assert(list@.subrange(0, j as int) =~= list@);
        self.put_back(pos, key, kept);
        assert(self.lists() =~= before.insert(torrent_id@, without_url(before_list_of(before, torrent_id@), url@)));
    }

    /// Record a successful announce on the first tracker with `url` of a torrent.
    pub fn record_success(
        &mut self,
        torrent_id: &str,
        tracker_url: &str,
        seeders: u32,
        leechers: u32,
        downloaded: u32,
    )
        requires
            old(self).wf(),
            first_with_url(old(self).list_of(torrent_id@), tracker_url@) matches Some(j) ==> success_fits(
                old(self).list_of(torrent_id@)[j],
            ),
        ensures
            final(self).wf(),
            final(self).lists() == if old(self).lists().contains_key(torrent_id@) {
                old(self).lists().insert(
                    torrent_id@,
                    update_first(
                        old(self).list_of(torrent_id@),
                        tracker_url@,
                        |e: TrackerEntry| after_success(e, seeders, leechers, downloaded),
                    ),
                )
            } else {
                old(self).lists()
            },
    {
        let key = String::from_str(torrent_id);
        let ghost before = self.lists();
        let (pos, mut list) = self.take_list(&key);
        if pos.is_none() {
            return;
        }
        let target = String::from_str(tracker_url);
        match Self::find_url(&list, &target) {
            Some(j) => {
                let mut e = list[j].duplicate();
                e.record_success(seeders, leechers, downloaded);
                list.set(j, e);
            },
            None => {},
        }
        self.put_back(pos, key, list);
        assert(self.lists() =~= before.insert(
            torrent_id@,
            update_first(
                before_list_of(before, torrent_id@),
                tracker_url@,
                |e: TrackerEntry| after_success(e, seeders, leechers, downloaded),
            ),
        ));
    }

    /// Record a failed announce on the first tracker with `url` of a torrent.
    pub fn record_failure(&mut self, torrent_id: &str, tracker_url: &str, error: String)
        requires
            old(self).wf(),
            first_with_url(old(self).list_of(torrent_id@), tracker_url@) matches Some(j) ==> failure_fits(
                old(self).list_of(torrent_id@)[j],
            ),
        ensures
            final(self).wf(),
            final(self).lists() == if old(self).lists().contains_key(torrent_id@) {
                old(self).lists().insert(
                    torrent_id@,
                    update_first(
                        old(self).list_of(torrent_id@),
                        tracker_url@,
                        |e: TrackerEntry| after_failure(e, error),
                    ),
                )
            } else {
                old(self).lists()
            },
    {
        let key = String::from_str(torrent_id);
        let ghost before = self.lists();
        let (pos, mut list) = self.take_list(&key);
        if pos.is_none() {
            return;
        }
        let target = String::from_str(tracker_url);
        match Self::find_url(&list, &target) {
            Some(j) => {
                let mut e = list[j].duplicate();
                e.record_failure(error);
                list.set(j, e);
            },
            None => {},
        }
        self.put_back(pos, key, list);
        assert(self.lists() =~= before.insert(
            torrent_id@,
            update_first(
                before_list_of(before, torrent_id@),
                tracker_url@,
                |e: TrackerEntry| after_failure(e, error),
            ),
        ));
    }

    /// Re-enable the first tracker with `url` of a torrent: not contacted, no
    /// consecutive failures, health recomputed.
    pub fn enable_tracker(&mut self, torrent_id: &str, tracker_url: &str)
        requires
            old(self).wf(),
            first_with_url(old(self).list_of(torrent_id@), tracker_url@) matches Some(j) ==> health_fits(
                old(self).list_of(torrent_id@)[j].announce_count,
                old(self).list_of(torrent_id@)[j].fail_count,
                0,
            ),
        ensures
            final(self).wf(),
            final(self).lists() == if old(self).lists().contains_key(torrent_id@) {
                old(self).lists().insert(
                    torrent_id@,
                    update_first(
                        old(self).list_of(torrent_id@),
                        tracker_url@,
                        |e: TrackerEntry| after_enable(e),
                    ),
                )
            } else {
                old(self).lists()
            },
    {
        let key = String::from_str(torrent_id);
        let ghost before = self.lists();
        let (pos, mut list) = self.take_list(&key);
        if pos.is_none() {
            return;
        }
        let target = String::from_str(tracker_url);
        match Self::find_url(&list, &target) {
            Some(j) => {
                let mut e = list[j].duplicate();
                e.status = TrackerStatus::NotContacted;
                e.consecutive_fails = 0;
                e.recalc_health();
                list.set(j, e);
            },
            None => {},
        }
        self.put_back(pos, key, list);
        assert(self.lists() =~= before.insert(
            torrent_id@,
            update_first(before_list_of(before, torrent_id@), tracker_url@, |e: TrackerEntry| after_enable(e)),
        ));
    }

    /// Aggregate (seeders, leechers) of a torrent: the largest counts reported
    /// by its working trackers, 0 when none works or the torrent is unknown.
    pub fn get_swarm_info(&self, torrent_id: &str) -> (r: (u32, u32))
        requires
            self.wf(),
        ensures
            r == (max_working(self.list_of(torrent_id@), true), max_working(self.list_of(torrent_id@), false)),
    {
        let key = String::from_str(torrent_id);
        match self.slot(&key) {
            None => (0, 0),
            Some(i) => {
                let list = &self.trackers[i].1;
                let mut seeders: u32 = 0;
                let mut leechers: u32 = 0;
                let mut j: usize = 0;
                while j < list.len()
                    invariant
                        j <= list@.len(),
                        seeders == max_working(list@.subrange(0, j as int), true),
                        leechers == max_working(list@.subrange(0, j as int), false),
                    decreases list@.len() - j,
                {
                    proof {
                        assert(list@.subrange(0, j + 1).subrange(0, j as int) =~= list@.subrange(0, j as int));
                    }
                    if list[j].status == TrackerStatus::Working {
                        if list[j].seeders > seeders {
                            seeders = list[j].seeders;
                        }
                        if list[j].leechers > leechers {
                            leechers = list[j].leechers;
                        }
                    }
                    j = j + 1;
                }
                assert(list@.subrange(0, j as int) =~= list@);
                (seeders, leechers)
            },
        }
    }
}

/// A tracker's health always equals its formula, and a tracker that keeps
/// failing is disabled once health drops below -50: after a success the
/// consecutive-failure count is zero and the tracker works; after a failure its
/// status is `Disabled` exactly when the new health is below -50.
pub proof fn lemma_health_tracks_counters(e: TrackerEntry, s: u32, l: u32, d: u32, err: String)
    requires
        success_fits(e),
        failure_fits(e),
    ensures
        after_success(e, s, l, d).health_score == health(
            after_success(e, s, l, d).announce_count,
            after_success(e, s, l, d).fail_count,
            after_success(e, s, l, d).consecutive_fails,
        ),
        after_success(e, s, l, d).status == TrackerStatus::Working,
        after_success(e, s, l, d).announce_count == e.announce_count + 1,
        after_failure(e, err).health_score == health(
            after_failure(e, err).announce_count,
            after_failure(e, err).fail_count,
            after_failure(e, err).consecutive_fails,
        ),
        (after_failure(e, err).status == TrackerStatus::Disabled) == (after_failure(e, err).health_score < -50),
        e.health_score == health(e.announce_count, e.fail_count, e.consecutive_fails)
            ==> after_failure(e, err).health_score < e.health_score,
{
}

/// Adding a tracker a torrent already has changes nothing, and adding one it
/// lacks appends exactly one entry: a torrent's list never gains a second
/// entry for a url through `add_tracker`.
pub proof fn lemma_add_tracker_no_duplicates(es: Seq<TrackerEntry>, url: String, tier: u8)
    ensures
        !has_url(es, url@) ==> has_url(es.push(fresh_entry(url, tier)), url@) && es.push(
            fresh_entry(url, tier),
        ).len() == es.len() + 1,
{
    if !has_url(es, url@) {
        let n = es.push(fresh_entry(url, tier));
        assert(n[es.len() as int].url@ == url@);
    }
}

/// The list a map holds for `id`, or an empty one.
pub open spec fn before_list_of(m: Map<Seq<char>, Seq<TrackerEntry>>, id: Seq<char>) -> Seq<TrackerEntry> {
    if m.contains_key(id) {
        m[id]
    } else {
        Seq::empty()
    }
}

} // verus!
