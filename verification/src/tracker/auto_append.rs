//! Auto-appended tracker list: a cached list of public tracker urls fetched
//! from a configurable address and appended to new torrents.

use vstd::prelude::*;

use crate::text::{find_char, has_prefix, split_on, starts_with_at, trim, trim_range, chars_of};

verus! {

/// Whether a trimmed line is a tracker url worth keeping.
pub open spec fn is_tracker_url(l: Seq<char>) -> bool {
    l.len() > 0 && (has_prefix(l, "udp://"@) || has_prefix(l, "http://"@) || has_prefix(l, "https://"@))
}

/// The tracker urls a list's lines give: each line trimmed, kept when it is a
/// non-empty udp/http/https url.
pub open spec fn tracker_lines(lines: Seq<Seq<char>>) -> Seq<Seq<char>>
    decreases lines.len(),
{
    if lines.len() == 0 {
        seq![]
    } else {
        let p = tracker_lines(lines.subrange(0, lines.len() - 1));
        let l = trim(lines[lines.len() - 1]);
        if is_tracker_url(l) {
            p.push(l)
        } else {
            p
        }
    }
}

/// Extract the tracker urls from a fetched list body, in order.
pub fn parse_tracker_list(body: &str) -> (r: Vec<String>)
    ensures
        r@.map_values(|s: String| s@) == tracker_lines(split_on(body@, '\n')),
{
    let v = chars_of(body);
    let n = v.len();
    let mut out: Vec<String> = Vec::new();
    let ghost mut done: Seq<Seq<char>> = seq![];
    let mut pos: usize = 0;
    assert(v@.subrange(0, n as int) =~= v@);
    loop
        invariant
            pos <= n == v@.len(),
            v@ == body@,
            split_on(body@, '\n') == done + split_on(v@.subrange(pos as int, n as int), '\n'),
            out@.map_values(|s: String| s@) == tracker_lines(done),
        decreases n - pos,
    {
        let end = find_char(&v, pos, n, '\n');
        let line_end = match end {
            Some(k) => k,
            None => n,
        };
        let ghost line = v@.subrange(pos as int, line_end as int);
        let (a, b) = trim_range(&v, pos, line_end);
        let keep = a < b && (starts_with_at(&v, a, b, "udp://") || starts_with_at(&v, a, b, "http://")
            || starts_with_at(&v, a, b, "https://"));
        proof {
            assert((done.push(line)).subrange(0, done.len() as int) =~= done);
        }
        if keep {
            let text = body.substring_char(a, b);
            let s = String::from_str(text);
            let ghost before = out@;
            out.push(s);
            assert(out@.map_values(|s: String| s@) =~= before.map_values(|s: String| s@).push(v@.subrange(a as int, b as int)));
        }
        match end {
            None => {
                proof {
                    assert(split_on(v@.subrange(pos as int, n as int), '\n') == seq![line]);
                    assert(done + seq![line] =~= done.push(line));
                    done = done.push(line);
                }
                return out;
            },
            Some(k) => {
                proof {
                    crate::text::lemma_split_step(v@, pos as int, k as int, n as int, '\n');
                    assert(done + (seq![line] + split_on(v@.subrange(k + 1, n as int), '\n'))
                        =~= done.push(line) + split_on(v@.subrange(k + 1, n as int), '\n'));
                    done = done.push(line);
                }
                pos = k + 1;
            },
        }
    }
}

/// Default refresh interval: 24 hours, in seconds.
pub const REFRESH_INTERVAL_SECS: u64 = 86400;

/// The cached tracker list and when it was last fetched.
pub struct TrackerAutoAppend {
    /// Cached tracker urls.
    cached_list: Vec<String>,
    /// Seconds (on the caller's monotonic clock) of the last fetch, if any.
    last_fetch: Option<u64>,
    /// Refresh interval in seconds.
    refresh_interval: u64,
}

impl TrackerAutoAppend {
    /// The cached urls.
    pub closed spec fn list(&self) -> Seq<String> {
        self.cached_list@
    }

    /// When the list was last fetched.
    pub closed spec fn fetched_at(&self) -> Option<u64> {
        self.last_fetch
    }

    /// The refresh interval in seconds.
    pub closed spec fn interval(&self) -> u64 {
        self.refresh_interval
    }

    /// An empty list, never fetched, refreshed daily.
    pub fn new() -> (a: TrackerAutoAppend)
        ensures
            a.list().len() == 0,
            a.fetched_at() is None,
            a.interval() == REFRESH_INTERVAL_SECS,
    {
        TrackerAutoAppend { cached_list: Vec::new(), last_fetch: None, refresh_interval: REFRESH_INTERVAL_SECS }
    }

    /// The cached urls.
    pub fn get_list(&self) -> (r: Vec<String>)
        ensures
            r@ == self.list(),
    {
        self.cached_list.clone()
    }

    /// Whether the list needs refreshing at time `now` (same clock as the fetch):
    /// never fetched, or fetched more than the interval ago.
    pub fn needs_refresh(&self, now: u64) -> (r: bool)
        ensures
            r == match self.fetched_at() {
                Some(t) => now as int - t as int > self.interval() as int,
                None => true,
            },
    {
        match self.last_fetch {
            Some(t) => if now >= t {
                now - t > self.refresh_interval
            } else {
                false
            },
            None => true,
        }
    }

    /// Replace the cached list with the urls of a freshly fetched body, fetched
    /// at time `now`; returns how many urls were kept.
    pub fn refresh_from_body(&mut self, body: &str, now: u64) -> (r: usize)
        ensures
            final(self).list().map_values(|s: String| s@) == tracker_lines(split_on(body@, '\n')),
            final(self).fetched_at() == Some(now),
            final(self).interval() == old(self).interval(),
            r == final(self).list().len(),
    {
        let trackers = parse_tracker_list(body);
        let count = trackers.len();
        self.cached_list = trackers;
        self.last_fetch = Some(now);
        proof {
            assert(self.cached_list@.map_values(|s: String| s@).len() == self.cached_list@.len());
        }
        count
    }

    /// Set the cached list directly (e.g. from persisted settings), as fetched at `now`.
    pub fn set_list(&mut self, list: Vec<String>, now: u64)
        ensures
            final(self).list() == list@,
            final(self).fetched_at() == Some(now),
            final(self).interval() == old(self).interval(),
    {
        self.cached_list = list;
        self.last_fetch = Some(now);
    }
}

/// Every url kept from a list is a trimmed, non-empty udp, http or https url.
pub proof fn lemma_only_tracker_urls(lines: Seq<Seq<char>>, k: int)
    requires
        0 <= k < tracker_lines(lines).len(),
    ensures
        is_tracker_url(tracker_lines(lines)[k]),
    decreases lines.len(),
{
    if lines.len() > 0 {
        let init = lines.subrange(0, lines.len() - 1);
        if k < tracker_lines(init).len() {
            lemma_only_tracker_urls(init, k);
        }
    }
}

} // verus!
