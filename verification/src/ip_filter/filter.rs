//! Sorted, merged range filter with logarithmic lookup plus manual bans.

use std::collections::HashSet;

use vstd::prelude::*;

use super::blocklist::{
    blocklist_ranges, cidr_parse, ipv4_from_octets, octets_to_u32, parse_cidr, parse_dat_file,
    parse_p2p_file, IpRange,
};
use crate::settings::schema::IPFilterSettings;
use crate::text::{chars_of, equals_text, lowercase, to_lowercase};

verus! {

broadcast use vstd::std_specs::hash::group_hash_axioms;

/// An IP address: version 4 by its octets, version 6 by its segments.
#[derive(Debug, Clone, Copy, PartialEq, Eq)]
pub enum IpAddr {
    V4([u8; 4]),
    V6([u16; 8]),
}

/// What the std sort gives for ranges sorted by their start.
pub uninterp spec fn stable_sort_by_start(s: Seq<(u32, u32)>) -> Seq<(u32, u32)>;

/// `slice::sort_by_key(|r| r.0)`: a stable sort by start. The contract names the
/// result and states the documented facts: same elements, ordered by start,
/// and ranges sharing a start keep their relative order.
#[verifier::external_body]
fn sort_by_start(v: &mut Vec<(u32, u32)>)
    ensures
        final(v)@ == stable_sort_by_start(old(v)@),
        final(v)@.to_multiset() == old(v)@.to_multiset(),
        forall|i: int, j: int|
            0 <= i < j < final(v)@.len() ==> (#[trigger] final(v)@[i]).0 <= (
            #[trigger] final(v)@[j]).0,
        forall|k: u32| #[trigger] with_start(final(v)@, k) == with_start(old(v)@, k),
{
    v.sort_by_key(|r| r.0)
}

/// The ranges of `s` that start at `k`, in order.
pub open spec fn with_start(s: Seq<(u32, u32)>, k: u32) -> Seq<(u32, u32)> {
    s.filter(|r: (u32, u32)| r.0 == k)
}

/// Whether range `r` covers `ip` (both ends inclusive).
pub open spec fn covers(r: (u32, u32), ip: u32) -> bool {
    r.0 <= ip && ip <= r.1
}

/// Whether some range of `s` covers `ip`.
pub open spec fn any_covers(s: Seq<(u32, u32)>, ip: u32) -> bool {
    exists|i: int| 0 <= i < s.len() && covers(#[trigger] s[i], ip)
}

/// Ranges sorted by start.
pub open spec fn sorted_by_start(s: Seq<(u32, u32)>) -> bool {
    forall|i: int, j: int| 0 <= i < j < s.len() ==> (#[trigger] s[i]).0 <= (#[trigger] s[j]).0
}

/// Merged ranges: sorted by start, and every range ends at least two below
/// the start of any later one (no overlap, no adjacency).
pub open spec fn disjoint_ordered(s: Seq<(u32, u32)>) -> bool {
    forall|i: int, j: int|
        0 <= i < j < s.len() ==> (#[trigger] s[i]).0 <= (#[trigger] s[j]).0 && s[i].1 + 1 < s[j].0
}

/// Merge ranges sorted by start: a range that starts at most one past the
/// end of the previous merged range extends it; any other starts a new one.
pub open spec fn merge_ranges(s: Seq<(u32, u32)>) -> Seq<(u32, u32)>
    decreases s.len(),
{
    if s.len() == 0 {
        seq![]
    } else {
        let m = merge_ranges(s.subrange(0, s.len() - 1));
        let r = s[s.len() - 1];
        if m.len() > 0 && r.0 <= m[m.len() - 1].1 + 1 {
            let last = m[m.len() - 1];
            m.update(m.len() - 1, (last.0, if r.1 > last.1 { r.1 } else { last.1 }))
        } else {
            m.push(r)
        }
    }
}

/// Every range starts at or before its end.
pub open spec fn ranges_valid(s: Seq<(u32, u32)>) -> bool {
    forall|i: int| 0 <= i < s.len() ==> (#[trigger] s[i]).0 <= s[i].1
}

proof fn lemma_merge_valid(s: Seq<(u32, u32)>)
    requires
        ranges_valid(s),
    ensures
        ranges_valid(merge_ranges(s)),
    decreases s.len(),
{
    if s.len() > 0 {
        lemma_merge_valid(s.subrange(0, s.len() - 1));
    }
}

/// The ranges as pairs.
pub open spec fn range_pairs(s: Seq<IpRange>) -> Seq<(u32, u32)> {
    s.map_values(|r: IpRange| (r.start, r.end))
}

proof fn lemma_merge_facts(s: Seq<(u32, u32)>)
    requires
        sorted_by_start(s),
    ensures
        disjoint_ordered(merge_ranges(s)),
        merge_ranges(s).len() <= s.len(),
        forall|i: int|
            0 <= i < merge_ranges(s).len() ==> exists|j: int|
                0 <= j < s.len() && (#[trigger] merge_ranges(s)[i]).0 == (#[trigger] s[j]).0,
        forall|ip: u32| #[trigger] any_covers(merge_ranges(s), ip) == any_covers(s, ip),
    decreases s.len(),
{
    if s.len() > 0 {
        let p = s.subrange(0, s.len() - 1);
        lemma_merge_facts(p);
        let m = merge_ranges(p);
        let r = s[s.len() - 1];
        let out = merge_ranges(s);
        if m.len() > 0 && r.0 <= m[m.len() - 1].1 + 1 {
            let last = m[m.len() - 1];
            let j0 = choose|j: int| 0 <= j < p.len() && last.0 == #[trigger] p[j].0;
            assert(p[j0] == s[j0]);
            assert(last.0 <= r.0);
            assert forall|i: int|
                0 <= i < out.len() implies exists|j: int|
                    0 <= j < s.len() && (#[trigger] out[i]).0 == (#[trigger] s[j]).0 by {
                let j = choose|j: int| 0 <= j < p.len() && (#[trigger] m[i]).0 == (
                #[trigger] p[j]).0;
                assert(p[j] == s[j]);
            }
            assert forall|ip: u32| any_covers(out, ip) == any_covers(s, ip) by {
                if any_covers(out, ip) {
                    let i = choose|i: int| 0 <= i < out.len() && covers(#[trigger] out[i], ip);
                    if i < m.len() - 1 {
                        assert(out[i] == m[i]);
                        assert(covers(m[i], ip));
                        assert(any_covers(m, ip));
                        assert(any_covers(p, ip));
                        let k = choose|k: int| 0 <= k < p.len() && covers(#[trigger] p[k], ip);
                        assert(s[k] == p[k]);
                    } else if covers(last, ip) {
                        assert(covers(m[m.len() - 1], ip));
                        assert(any_covers(m, ip));
                        assert(any_covers(p, ip));
                        let k = choose|k: int| 0 <= k < p.len() && covers(#[trigger] p[k], ip);
                        assert(s[k] == p[k]);
                    } else {
                        assert(covers(s[s.len() - 1], ip));
                    }
                }
                if any_covers(s, ip) {
                    let k = choose|k: int| 0 <= k < s.len() && covers(#[trigger] s[k], ip);
                    if k < s.len() - 1 {
                        assert(p[k] == s[k]);
                        assert(any_covers(p, ip));
                        assert(any_covers(m, ip));
                        let i = choose|i: int| 0 <= i < m.len() && covers(#[trigger] m[i], ip);
                        if i < m.len() - 1 {
                            assert(out[i] == m[i]);
                        } else {
                            assert(covers(out[m.len() - 1], ip));
                        }
                    } else {
                        assert(covers(out[m.len() - 1], ip));
                    }
                }
            }
        } else {
            if m.len() > 0 {
                let last = m[m.len() - 1];
                let j0 = choose|j: int| 0 <= j < p.len() && last.0 == #[trigger] p[j].0;
                assert(p[j0] == s[j0]);
            }
            assert forall|i: int|
                0 <= i < out.len() implies exists|j: int|
                    0 <= j < s.len() && (#[trigger] out[i]).0 == (#[trigger] s[j]).0 by {
                if i < m.len() {
                    let j = choose|j: int| 0 <= j < p.len() && (#[trigger] m[i]).0 == (
                    #[trigger] p[j]).0;
                    assert(p[j] == s[j]);
                } else {
                    assert(out[i] == s[s.len() - 1]);
                }
            }
            assert forall|ip: u32| any_covers(out, ip) == any_covers(s, ip) by {
                if any_covers(out, ip) {
                    let i = choose|i: int| 0 <= i < out.len() && covers(#[trigger] out[i], ip);
                    if i < m.len() {
                        assert(any_covers(m, ip));
                        let k = choose|k: int| 0 <= k < p.len() && covers(#[trigger] p[k], ip);
                        assert(s[k] == p[k]);
                    } else {
                        assert(covers(s[s.len() - 1], ip));
                    }
                }
                if any_covers(s, ip) {
                    let k = choose|k: int| 0 <= k < s.len() && covers(#[trigger] s[k], ip);
                    if k < s.len() - 1 {
                        assert(p[k] == s[k]);
                        assert(any_covers(p, ip));
                        assert(any_covers(m, ip));
                        let i = choose|i: int| 0 <= i < m.len() && covers(#[trigger] m[i], ip);
                        assert(out[i] == m[i]);
                    } else {
                        assert(out[m.len() as int] == s[k]);
                    }
                }
            }
        }
    }
}

/// Thread-unaware IP filter with sorted ranges for fast lookup.
pub struct IPFilter {
    /// Sorted, non-overlapping IP ranges (merged on load).
    ranges: Vec<(u32, u32)>,
    /// Manually banned individual addresses.
    manual_bans: HashSet<u32>,
    /// Number of ranges loaded.
    range_count: usize,
}

impl IPFilter {
    /// The filter's internal consistency: merged ranges and a matching count.
    pub closed spec fn wf(&self) -> bool {
        &&& disjoint_ordered(self.ranges@)
        &&& self.range_count == self.ranges@.len()
    }

    /// The merged ranges.
    pub closed spec fn ranges(&self) -> Seq<(u32, u32)> {
        self.ranges@
    }

    /// The manually banned addresses.
    pub closed spec fn bans(&self) -> Set<u32> {
        self.manual_bans@
    }

    /// Whether a loaded range blocks `ip`.
    pub open spec fn range_blocks(&self, ip: u32) -> bool {
        any_covers(self.ranges(), ip)
    }

    /// Whether the filter blocks the IPv4 address `ip`.
    pub open spec fn blocks(&self, ip: u32) -> bool {
        self.bans().contains(ip) || self.range_blocks(ip)
    }

    /// An empty filter.
    pub fn new() -> (f: IPFilter)
        ensures
            f.wf(),
            f.ranges() == Seq::<(u32, u32)>::empty(),
            f.bans() == Set::<u32>::empty(),
    {
        IPFilter { ranges: Vec::new(), manual_bans: HashSet::new(), range_count: 0 }
    }

    /// Binary search of the merged ranges for one covering `ip`.
    fn in_ranges(&self, ip: u32) -> (r: bool)
        requires
            self.wf(),
        ensures
            r == self.range_blocks(ip),
    {
        let mut lo: usize = 0;
        let mut hi: usize = self.ranges.len();
        while lo < hi
            invariant
                self.wf(),
                lo <= hi <= self.ranges@.len(),
                forall|j: int| 0 <= j < lo ==> !covers(#[trigger] self.ranges@[j], ip),
                forall|j: int| hi <= j < self.ranges@.len() ==> !covers(#[trigger] self.ranges@[j], ip),
            decreases hi - lo,
        {
            let mid = lo + (hi - lo) / 2;
            let (start, end) = self.ranges[mid];
            if ip < start {
                assert forall|j: int| mid <= j < self.ranges@.len() implies !covers(
                    #[trigger] self.ranges@[j],
                    ip,
                ) by {
                    if j > mid {
                        assert(self.ranges@[mid as int].0 <= self.ranges@[j].0);
                    }
                }
                hi = mid;
            } else if ip > end {
                assert forall|j: int| 0 <= j <= mid implies !covers(#[trigger] self.ranges@[j], ip) by {
                    if j < mid {
                        assert(self.ranges@[j].1 + 1 < self.ranges@[mid as int].0);
                    }
                }
                lo = mid + 1;
            } else {
                assert(covers(self.ranges@[mid as int], ip));
                return true;
            }
        }
        false
    }

    /// Whether an address is blocked: manual bans and loaded ranges block IPv4
    /// addresses; IPv6 addresses are never blocked.
    pub fn is_blocked(&self, ip: IpAddr) -> (r: bool)
        requires
            self.wf(),
        ensures
            r == match ip {
                IpAddr::V4(o) => self.blocks(ipv4_from_octets(o@[0], o@[1], o@[2], o@[3])),
                IpAddr::V6(_) => false,
            },
    {
        match ip {
            IpAddr::V4(o) => {
                let ip_u32 = octets_to_u32(o);
                if self.manual_bans.contains(&ip_u32) {
                    return true;
                }
                self.in_ranges(ip_u32)
            },
            IpAddr::V6(_) => false,
        }
    }

    /// Add ranges: append them, sort by start, and merge overlapping or adjacent ones.
    /// Afterwards exactly the addresses blocked before or covered by a new range are
    /// blocked by ranges.
    pub fn add_ranges(&mut self, new_ranges: Vec<IpRange>)
        requires
            old(self).wf(),
        ensures
            final(self).wf(),
            final(self).ranges() == merge_ranges(
                stable_sort_by_start(old(self).ranges() + range_pairs(new_ranges@)),
            ),
            final(self).bans() == old(self).bans(),
            forall|ip: u32|
                #[trigger] final(self).range_blocks(ip) == (old(self).range_blocks(ip)
                    || any_covers(range_pairs(new_ranges@), ip)),
            ranges_valid(old(self).ranges()) && ranges_valid(range_pairs(new_ranges@)) ==> ranges_valid(
                final(self).ranges(),
            ),
    {
        let ghost old_ranges = self.ranges@;
        let mut all: Vec<(u32, u32)> = Vec::new();
        let mut j: usize = 0;
        while j < self.ranges.len()
            invariant
                j <= old_ranges.len(),
                self.ranges@ == old_ranges,
                all@ == old_ranges.subrange(0, j as int),
            decreases old_ranges.len() - j,
        {
            all.push(self.ranges[j]);
            j = j + 1;
            assert(all@ =~= old_ranges.subrange(0, j as int));
        }
        assert(all@ =~= old_ranges);
        assert(range_pairs(new_ranges@.subrange(0, 0)) =~= Seq::<(u32, u32)>::empty());
        let mut i: usize = 0;
        while i < new_ranges.len()
            invariant
                i <= new_ranges@.len(),
                all@ == old_ranges + range_pairs(new_ranges@.subrange(0, i as int)),
            decreases new_ranges@.len() - i,
        {
            let r = new_ranges[i];
            all.push((r.start, r.end));
            i = i + 1;
            assert(range_pairs(new_ranges@.subrange(0, i as int)) =~= range_pairs(
                new_ranges@.subrange(0, i - 1),
            ).push((r.start, r.end)));
        }
        assert(new_ranges@.subrange(0, i as int) =~= new_ranges@);
        let ghost combined = all@;
        sort_by_start(&mut all);
        let ghost sorted = all@;
        let mut merged: Vec<(u32, u32)> = Vec::new();
        let mut k: usize = 0;
        while k < all.len()
            invariant
                k <= all@.len(),
                all@ == sorted,
                merged@ == merge_ranges(sorted.subrange(0, k as int)),
                merged@.len() <= k,
            decreases all@.len() - k,
        {
            let (start, end) = all[k];
            proof {
                assert(sorted.subrange(0, k + 1).subrange(0, k as int) =~= sorted.subrange(
                    0,
                    k as int,
                ));
                lemma_merge_len(sorted.subrange(0, k as int));
            }
            let n = merged.len();
            if n > 0 && (start as u64) <= (merged[n - 1].1 as u64) + 1 {
                let (ls, le) = merged[n - 1];
                let new_end = if end > le {
                    end
                } else {
                    le
                };
                merged.set(n - 1, (ls, new_end));
            } else {
                merged.push((start, end));
            }
            k = k + 1;
        }
        assert(sorted.subrange(0, k as int) =~= sorted);
        proof {
            lemma_merge_facts(sorted);
            assert forall|ip: u32| any_covers(sorted, ip) == any_covers(combined, ip) by {
                if any_covers(sorted, ip) {
                    let t = choose|t: int| 0 <= t < sorted.len() && covers(#[trigger] sorted[t], ip);
                    assert(sorted.contains(sorted[t]));
                    vstd::seq_lib::to_multiset_contains(sorted, sorted[t]);
                    vstd::seq_lib::to_multiset_contains(combined, sorted[t]);
                    let u = choose|u: int| 0 <= u < combined.len() && combined[u] == sorted[t];
                }
                if any_covers(combined, ip) {
                    let t = choose|t: int|
                        0 <= t < combined.len() && covers(#[trigger] combined[t], ip);
                    assert(combined.contains(combined[t]));
                    vstd::seq_lib::to_multiset_contains(sorted, combined[t]);
                    vstd::seq_lib::to_multiset_contains(combined, combined[t]);
                    let u = choose|u: int| 0 <= u < sorted.len() && sorted[u] == combined[t];
                }
            }
            assert forall|ip: u32| any_covers(combined, ip) == (any_covers(old_ranges, ip)
                || any_covers(range_pairs(new_ranges@), ip)) by {
                let np = range_pairs(new_ranges@);
                if any_covers(combined, ip) {
                    let t = choose|t: int|
                        0 <= t < combined.len() && covers(#[trigger] combined[t], ip);
                    if t >= old_ranges.len() {
                        assert(np[t - old_ranges.len()] == combined[t]);
                    } else {
                        assert(old_ranges[t] == combined[t]);
                    }
                }
                if any_covers(old_ranges, ip) {
                    let t = choose|t: int|
                        0 <= t < old_ranges.len() && covers(#[trigger] old_ranges[t], ip);
                    assert(combined[t] == old_ranges[t]);
                }
                if any_covers(np, ip) {
                    let t = choose|t: int| 0 <= t < np.len() && covers(#[trigger] np[t], ip);
                    assert(combined[t + old_ranges.len()] == np[t]);
                }
            }
        }
        proof {
            if ranges_valid(old_ranges) && ranges_valid(range_pairs(new_ranges@)) {
                let np = range_pairs(new_ranges@);
                assert forall|t: int| 0 <= t < combined.len() implies (#[trigger] combined[t]).0 <= combined[t].1 by {
                    if t >= old_ranges.len() {
                        assert(np[t - old_ranges.len()] == combined[t]);
                    } else {
                        assert(old_ranges[t] == combined[t]);
                    }
                }
                assert forall|t: int| 0 <= t < sorted.len() implies (#[trigger] sorted[t]).0 <= sorted[t].1 by {
                    assert(sorted.contains(sorted[t]));
                    vstd::seq_lib::to_multiset_contains(sorted, sorted[t]);
                    vstd::seq_lib::to_multiset_contains(combined, sorted[t]);
                    let u = choose|u: int| 0 <= u < combined.len() && combined[u] == sorted[t];
                }
                lemma_merge_valid(sorted);
            }
        }
        self.range_count = merged.len();
        self.ranges = merged;
    }

    /// Load the ranges of a PeerGuardian .dat blocklist's content; returns how
    /// many ranges the content listed.
    pub fn load_dat_file(&mut self, content: &str) -> (r: usize)
        requires
            old(self).wf(),
        ensures
            final(self).wf(),
            r == blocklist_ranges(content@, false).len(),
            final(self).ranges() == merge_ranges(
                stable_sort_by_start(old(self).ranges() + range_pairs(blocklist_ranges(content@, false))),
            ),
            final(self).bans() == old(self).bans(),
            forall|ip: u32|
                #[trigger] final(self).range_blocks(ip) == (old(self).range_blocks(ip)
                    || any_covers(range_pairs(blocklist_ranges(content@, false)), ip)),
            ranges_valid(old(self).ranges()) && ranges_valid(range_pairs(blocklist_ranges(content@, false)))
                ==> ranges_valid(final(self).ranges()),
    {
        let ranges = parse_dat_file(content);
        let count = ranges.len();
        self.add_ranges(ranges);
        count
    }

    /// Load the ranges of an eMule .p2p blocklist's content; returns how many
    /// ranges the content listed.
    pub fn load_p2p_file(&mut self, content: &str) -> (r: usize)
        requires
            old(self).wf(),
        ensures
            final(self).wf(),
            r == blocklist_ranges(content@, true).len(),
            final(self).ranges() == merge_ranges(
                stable_sort_by_start(old(self).ranges() + range_pairs(blocklist_ranges(content@, true))),
            ),
            final(self).bans() == old(self).bans(),
            forall|ip: u32|
                #[trigger] final(self).range_blocks(ip) == (old(self).range_blocks(ip)
                    || any_covers(range_pairs(blocklist_ranges(content@, true)), ip)),
            ranges_valid(old(self).ranges()) && ranges_valid(range_pairs(blocklist_ranges(content@, true)))
                ==> ranges_valid(final(self).ranges()),
    {
        let ranges = parse_p2p_file(content);
        let count = ranges.len();
        self.add_ranges(ranges);
        count
    }

    /// Add a CIDR range; a string that does not parse leaves the filter as it was
    /// and returns the parse error.
    pub fn add_cidr(&mut self, cidr: &str) -> (r: Result<(), String>)
        requires
            old(self).wf(),
        ensures
            final(self).wf(),
            final(self).bans() == old(self).bans(),
            match cidr_parse(cidr@) {
                Ok((s, e)) => r is Ok && final(self).ranges() == merge_ranges(
                    stable_sort_by_start(old(self).ranges() + seq![(s, e)]),
                ) && forall|ip: u32|
                    #[trigger] final(self).range_blocks(ip) == (old(self).range_blocks(ip) || (s
                        <= ip && ip <= e)),
                Err(m) => r matches Err(msg) && msg@ == m && final(self).ranges() == old(
                    self,
                ).ranges(),
            },
            ranges_valid(old(self).ranges()) ==> ranges_valid(final(self).ranges()),
    {
        match parse_cidr(cidr) {
            Err(e) => Err(e),
            Ok(range) => {
                let mut v: Vec<IpRange> = Vec::new();
                v.push(range);
                let ghost np = range_pairs(v@);
                assert(np =~= seq![(range.start, range.end)]);
                assert forall|ip: u32| any_covers(np, ip) == (range.start <= ip && ip <= range.end) by {
                    if range.start <= ip && ip <= range.end {
                        assert(covers(np[0], ip));
                    }
                }
                assert(ranges_valid(np));
                self.add_ranges(v);
                Ok(())
            },
        }
    }

    /// Manually ban an address.
    pub fn ban_ip(&mut self, ip: [u8; 4])
        requires
            old(self).wf(),
        ensures
            final(self).wf(),
            final(self).ranges() == old(self).ranges(),
            final(self).bans() == old(self).bans().insert(ipv4_from_octets(ip@[0], ip@[1], ip@[2], ip@[3])),
    {
        let v = octets_to_u32(ip);
        self.manual_bans.insert(v);
    }

    /// Remove a manual ban.
    pub fn unban_ip(&mut self, ip: [u8; 4])
        requires
            old(self).wf(),
        ensures
            final(self).wf(),
            final(self).ranges() == old(self).ranges(),
            final(self).bans() == old(self).bans().remove(ipv4_from_octets(ip@[0], ip@[1], ip@[2], ip@[3])),
    {
        let v = octets_to_u32(ip);
        self.manual_bans.remove(&v);
    }

    /// The number of merged ranges.
    pub fn range_count(&self) -> (r: usize)
        requires
            self.wf(),
        ensures
            r == self.ranges().len(),
    {
        self.range_count
    }

    /// The number of manual bans.
    pub fn manual_ban_count(&self) -> (r: usize)
        ensures
            r == self.bans().len(),
    {
        self.manual_bans.len()
    }

    /// Clear all ranges and bans.
    pub fn clear(&mut self)
        ensures
            final(self).wf(),
            final(self).ranges() == Seq::<(u32, u32)>::empty(),
            final(self).bans() == Set::<u32>::empty(),
    {
        self.ranges.clear();
        self.manual_bans.clear();
        self.range_count = 0;
    }
}

proof fn lemma_merge_len(s: Seq<(u32, u32)>)
    ensures
        merge_ranges(s).len() <= s.len(),
    decreases s.len(),
{
    if s.len() > 0 {
        lemma_merge_len(s.subrange(0, s.len() - 1));
    }
}

/// Blocklist formats, told apart by the file's extension.
#[derive(Debug, Clone, Copy, PartialEq, Eq, Structural)]
pub enum BlocklistFormat {
    Dat,
    P2p,
}

/// The format a (lower-cased) extension selects: "dat", "p2p", and anything else
/// is read as .dat.
pub open spec fn format_for_extension(lower_ext: Seq<char>) -> BlocklistFormat {
    if lower_ext == "p2p"@ {
        BlocklistFormat::P2p
    } else {
        BlocklistFormat::Dat
    }
}

/// The filter together with its settings.
pub struct IPFilterManager {
    filter: IPFilter,
    config: IPFilterSettings,
}

impl IPFilterManager {
    /// The manager's consistency: its filter is well formed.
    pub closed spec fn wf(&self) -> bool {
        self.filter.wf()
    }

    /// The filter.
    pub closed spec fn filter(&self) -> IPFilter {
        self.filter
    }

    /// The settings.
    pub closed spec fn config(&self) -> IPFilterSettings {
        self.config
    }

    /// A manager with an empty filter.
    pub fn new(config: IPFilterSettings) -> (m: IPFilterManager)
        ensures
            m.wf(),
            m.config() == config,
            m.filter().ranges() == Seq::<(u32, u32)>::empty(),
            m.filter().bans() == Set::<u32>::empty(),
    {
        IPFilterManager { filter: IPFilter::new(), config }
    }

    /// Drop every range and ban; a reload starts with this, before the file
    /// is read, so a file that cannot be read leaves the filter empty.
    pub fn clear(&mut self)
        requires
            old(self).wf(),
        ensures
            final(self).wf(),
            final(self).config() == old(self).config(),
            final(self).filter().ranges() == Seq::<(u32, u32)>::empty(),
            final(self).filter().bans() == Set::<u32>::empty(),
    {
        self.filter.clear();
    }

    /// Whether filtering is enabled.
    pub fn is_enabled(&self) -> (r: bool)
        ensures
            r == self.config().enabled,
    {
        self.config.enabled
    }

    /// Whether an address is blocked; nothing is blocked while filtering is disabled.
    pub fn is_blocked(&self, ip: IpAddr) -> (r: bool)
        requires
            self.wf(),
        ensures
            r == (self.config().enabled && match ip {
                IpAddr::V4(o) => self.filter().blocks(ipv4_from_octets(o@[0], o@[1], o@[2], o@[3])),
                IpAddr::V6(_) => false,
            }),
    {
        if !self.config.enabled {
            return false;
        }
        self.filter.is_blocked(ip)
    }

    /// Replace the filter's ranges and bans with those of a blocklist file.
    /// `extension` is the file's extension; "p2p" (any case) selects the eMule
    /// format, anything else the PeerGuardian format. Returns how many ranges the
    /// content listed.
    pub fn load_blocklist(&mut self, extension: &str, content: &str) -> (r: usize)
        requires
            old(self).wf(),
        ensures
            final(self).wf(),
            final(self).config() == old(self).config(),
            final(self).filter().bans() == Set::<u32>::empty(),
            ({
                let p2p = format_for_extension(lowercase(extension@)) == BlocklistFormat::P2p;
                &&& r == blocklist_ranges(content@, p2p).len()
                &&& final(self).filter().ranges() == merge_ranges(
                    stable_sort_by_start(range_pairs(blocklist_ranges(content@, p2p))),
                )
                &&& ranges_valid(range_pairs(blocklist_ranges(content@, p2p))) ==> ranges_valid(
                    final(self).filter().ranges(),
                )
            }),
    {
        self.filter.clear();
        let ext = to_lowercase(extension);
        let ext_chars = chars_of(ext.as_str());
        let is_p2p = equals_text(&ext_chars, "p2p");
        let ghost p2p = format_for_extension(lowercase(extension@)) == BlocklistFormat::P2p;
        assert(is_p2p == p2p);
        assert(Seq::<(u32, u32)>::empty() + range_pairs(blocklist_ranges(content@, p2p)) =~= range_pairs(
            blocklist_ranges(content@, p2p),
        ));
        if is_p2p {
            self.filter.load_p2p_file(content)
        } else {
            self.filter.load_dat_file(content)
        }
    }

    /// Manually ban an address.
    pub fn ban_ip(&mut self, ip: [u8; 4])
        requires
            old(self).wf(),
        ensures
            final(self).wf(),
            final(self).config() == old(self).config(),
            final(self).filter().ranges() == old(self).filter().ranges(),
            final(self).filter().bans() == old(self).filter().bans().insert(
                ipv4_from_octets(ip@[0], ip@[1], ip@[2], ip@[3]),
            ),
    {
        self.filter.ban_ip(ip);
    }

    /// Remove a manual ban.
    pub fn unban_ip(&mut self, ip: [u8; 4])
        requires
            old(self).wf(),
        ensures
            final(self).wf(),
            final(self).config() == old(self).config(),
            final(self).filter().ranges() == old(self).filter().ranges(),
            final(self).filter().bans() == old(self).filter().bans().remove(
                ipv4_from_octets(ip@[0], ip@[1], ip@[2], ip@[3]),
            ),
    {
        self.filter.unban_ip(ip);
    }

    /// (range count, manual ban count).
    pub fn stats(&self) -> (r: (usize, usize))
        requires
            self.wf(),
        ensures
            r.0 == self.filter().ranges().len(),
            r.1 == self.filter().bans().len(),
    {
        (self.filter.range_count(), self.filter.manual_ban_count())
    }

    /// Replace the settings.
    pub fn update_config(&mut self, new: IPFilterSettings)
        ensures
            final(self).config() == new,
            final(self).filter() == old(self).filter(),
    {
        self.config = new;
    }
}

/// The filter blocks exactly the addresses its merged ranges cover or that are
/// banned by hand, and merging keeps the ranges in the disjoint order the
/// binary search relies on: for sorted input, merging neither loses nor adds
/// an address.
pub proof fn lemma_merge_keeps_addresses(s: Seq<(u32, u32)>, ip: u32)
    requires
        sorted_by_start(s),
    ensures
        any_covers(merge_ranges(s), ip) == any_covers(s, ip),
        disjoint_ordered(merge_ranges(s)),
        merge_ranges(s).len() <= s.len(),
{
    lemma_merge_facts(s);
}

/// `r` is a maximal run of consecutive addresses that ranges `m` cover: every
/// address from `r.0` to `r.1` is covered, and neither the address just
/// before nor the one just after is.
pub open spec fn is_maximal_run(m: Seq<(u32, u32)>, r: (u32, u32)) -> bool {
    &&& r.0 <= r.1
    &&& forall|ip: u32| r.0 <= ip <= r.1 ==> #[trigger] any_covers(m, ip)
    &&& r.0 == 0 || !any_covers(m, (r.0 - 1) as u32)
    &&& r.1 == u32::MAX || !any_covers(m, (r.1 + 1) as u32)
}

/// The maximal runs of consecutive addresses that ranges `m` cover.
pub open spec fn maximal_runs(m: Seq<(u32, u32)>) -> Set<(u32, u32)> {
    Set::new(|r: (u32, u32)| is_maximal_run(m, r))
}

/// The filter keeps one range per maximal run of blocked addresses: where
/// every loaded range starts at or before its end, its merged ranges are
/// exactly the maximal runs of consecutive addresses they block (overlapping
/// and adjacent ranges merged), so the range count is the number of runs.
pub proof fn lemma_range_count_is_run_count(f: IPFilter)
    requires
        f.wf(),
        ranges_valid(f.ranges()),
    ensures
        f.ranges().to_set() == maximal_runs(f.ranges()),
        f.ranges().len() == maximal_runs(f.ranges()).len(),
{
    let m = f.ranges();
    assert(disjoint_ordered(m));
    assert forall|r: (u32, u32)| m.to_set().contains(r) implies #[trigger] is_maximal_run(m, r) by {
        let i = choose|i: int| 0 <= i < m.len() && m[i] == r;
        assert forall|ip: u32| r.0 <= ip <= r.1 implies #[trigger] any_covers(m, ip) by {
            assert(covers(m[i], ip));
        }
        if r.0 != 0 {
            let ip = (r.0 - 1) as u32;
            if any_covers(m, ip) {
                let j = choose|j: int| 0 <= j < m.len() && covers(#[trigger] m[j], ip);
                if j < i {
                    assert(m[j].1 + 1 < m[i].0);
                } else if j > i {
                    assert(m[i].1 + 1 < m[j].0);
                }
            }
        }
        if r.1 != u32::MAX {
            let ip = (r.1 + 1) as u32;
            if any_covers(m, ip) {
                let j = choose|j: int| 0 <= j < m.len() && covers(#[trigger] m[j], ip);
                if j < i {
                    assert(m[j].1 + 1 < m[i].0);
                } else if j > i {
                    assert(m[i].1 + 1 < m[j].0);
                }
            }
        }
    }
    assert forall|r: (u32, u32)| #[trigger] is_maximal_run(m, r) implies m.to_set().contains(r) by {
        assert(any_covers(m, r.0));
        let i = choose|i: int| 0 <= i < m.len() && covers(#[trigger] m[i], r.0);
        if m[i].0 < r.0 {
            assert(covers(m[i], (r.0 - 1) as u32));
        }
        if r.1 > m[i].1 {
            let ip = (m[i].1 + 1) as u32;
            assert(r.0 <= ip <= r.1);
            assert(any_covers(m, ip));
            let j = choose|j: int| 0 <= j < m.len() && covers(#[trigger] m[j], ip);
            if j < i {
                assert(m[j].1 + 1 < m[i].0);
            } else if j > i {
                assert(m[i].1 + 1 < m[j].0);
            }
        }
        if r.1 < m[i].1 {
            assert(covers(m[i], (r.1 + 1) as u32));
        }
        assert(m[i] == r);
    }
    assert(m.to_set() =~= maximal_runs(m));
    assert(m.no_duplicates()) by {
        assert forall|a: int, b: int| 0 <= a < m.len() && 0 <= b < m.len() && a != b implies m[a] != m[b] by {
            if a < b {
                assert(m[a].1 + 1 < m[b].0);
            } else {
                assert(m[b].1 + 1 < m[a].0);
            }
        }
    }
    m.unique_seq_to_set();
}

} // verus!
