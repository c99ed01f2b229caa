//! Torrent search: result types, the Torbox search API's replies, and the
//! merging of results from several indexers.

pub mod plugins;
pub mod scrape;

use vstd::prelude::*;

use crate::error::TsubasaError;
use crate::magnet::{url_encode, url_encoded};
use crate::text::{lowercase, same_text, to_lowercase};

verus! {

/// Search result category.
#[derive(Debug, Clone, Copy, PartialEq, Eq, Structural)]
pub enum SearchCategory {
    All,
    Movies,
    TV,
    Music,
    Games,
    Software,
    Anime,
    Books,
    Other,
}

/// The lower-case name of a category.
pub open spec fn category_name(c: SearchCategory) -> Seq<char> {
    match c {
        SearchCategory::All => "all"@,
        SearchCategory::Movies => "movies"@,
        SearchCategory::TV => "tv"@,
        SearchCategory::Music => "music"@,
        SearchCategory::Games => "games"@,
        SearchCategory::Software => "software"@,
        SearchCategory::Anime => "anime"@,
        SearchCategory::Books => "books"@,
        SearchCategory::Other => "other"@,
    }
}

impl SearchCategory {
    /// The lower-case name of the category.
    pub fn as_str(&self) -> (r: &'static str)
        ensures
            r@ == category_name(*self),
    {
        match self {
            SearchCategory::All => "all",
            SearchCategory::Movies => "movies",
            SearchCategory::TV => "tv",
            SearchCategory::Music => "music",
            SearchCategory::Games => "games",
            SearchCategory::Software => "software",
            SearchCategory::Anime => "anime",
            SearchCategory::Books => "books",
            SearchCategory::Other => "other",
        }
    }
}

fn copy_opt(o: &Option<String>) -> (r: Option<String>)
    ensures
        r == *o,
{
    match o {
        Some(s) => Some(s.clone()),
        None => None,
    }
}

/// A single torrent search result from an indexer.
#[derive(Debug, Clone, PartialEq, Eq)]
pub struct PluginSearchResult {
    /// Torrent title.
    pub title: String,
    /// Magnet URI, if available.
    pub magnet: Option<String>,
    /// .torrent download URL, if available.
    pub torrent_url: Option<String>,
    /// Info hash (lowercase hex), if available.
    pub info_hash: Option<String>,
    /// Total size in bytes (0 if unknown).
    pub size_bytes: u64,
    pub seeders: u32,
    pub leechers: u32,
    /// Upload date, as the indexer writes it.
    pub upload_date: Option<String>,
    /// Id of the indexer that produced this result.
    pub source: String,
    pub category: Option<String>,
    /// Link to the result's page on the indexer.
    pub source_url: String,
}

impl PluginSearchResult {
    /// A field-by-field copy.
    pub fn duplicate(&self) -> (r: PluginSearchResult)
        ensures
            r == *self,
    {
        PluginSearchResult {
            title: self.title.clone(),
            magnet: copy_opt(&self.magnet),
            torrent_url: copy_opt(&self.torrent_url),
            info_hash: copy_opt(&self.info_hash),
            size_bytes: self.size_bytes,
            seeders: self.seeders,
            leechers: self.leechers,
            upload_date: copy_opt(&self.upload_date),
            source: self.source.clone(),
            category: copy_opt(&self.category),
            source_url: self.source_url.clone(),
        }
    }
}

/// Indexer metadata for the frontend.
#[derive(Debug, Clone)]
pub struct PluginInfo {
    pub id: String,
    pub name: String,
    pub categories: Vec<SearchCategory>,
}

/// A single torrent search result from the Torbox search API.
#[derive(Debug, Clone, PartialEq, Eq)]
pub struct SearchResult {
    pub name: String,
    /// Info hash (lowercase hex).
    pub info_hash: String,
    pub size: u64,
    pub seeders: u32,
    pub leechers: u32,
    /// Source tracker or indexer name.
    pub source: String,
    pub category: String,
    pub magnet_uri: String,
    /// Whether Torbox has it cached (when the cache check was asked for).
    pub cached: Option<bool>,
    pub uploaded_at: Option<String>,
}

/// A search history entry.
#[derive(Debug, Clone, PartialEq, Eq)]
pub struct SearchHistoryEntry {
    pub id: i64,
    pub query: String,
    pub timestamp: String,
}

// ─── Deduplication ──────────────────────────────────────────

/// Whether two results carry the same info hash, compared ignoring case.
pub open spec fn same_hash(a: PluginSearchResult, b: PluginSearchResult) -> bool {
    a.info_hash is Some && b.info_hash is Some && lowercase(a.info_hash->0@) == lowercase(b.info_hash->0@)
}

/// Result `j` is preferred to result `i` of the same hash: it has more
/// seeders, or as many and comes first.
pub open spec fn beats(rs: Seq<PluginSearchResult>, j: int, i: int) -> bool {
    j != i && same_hash(rs[j], rs[i]) && (rs[j].seeders > rs[i].seeders || (rs[j].seeders == rs[i].seeders
        && j < i))
}

/// Whether another result of the same hash is preferred to result `i`.
pub open spec fn beaten(rs: Seq<PluginSearchResult>, i: int) -> bool {
    exists|j: int| 0 <= j < rs.len() && #[trigger] beats(rs, j, i)
}

/// The positions among the first `n` results that deduplication keeps.
pub open spec fn kept_indices(rs: Seq<PluginSearchResult>, n: int) -> Seq<int>
    decreases n,
{
    if n <= 0 {
        seq![]
    } else {
        let p = kept_indices(rs, n - 1);
        if beaten(rs, n - 1) {
            p
        } else {
            p.push(n - 1)
        }
    }
}

/// The results deduplicated by info hash: of each hash (ignoring case) only
/// the result with the most seeders stays (the first of them on a tie);
/// results without a hash all stay; order is kept.
pub open spec fn dedup_spec(rs: Seq<PluginSearchResult>) -> Seq<PluginSearchResult> {
    kept_indices(rs, rs.len() as int).map_values(|i: int| rs[i])
}

proof fn lemma_kept_indices(rs: Seq<PluginSearchResult>, n: int)
    requires
        0 <= n <= rs.len(),
    ensures
        forall|k: int| 0 <= k < kept_indices(rs, n).len() ==> 0 <= #[trigger] kept_indices(rs, n)[k] < n
            && !beaten(rs, kept_indices(rs, n)[k]),
        forall|a: int, b: int|
            0 <= a < b < kept_indices(rs, n).len() ==> #[trigger] kept_indices(rs, n)[a]
                < #[trigger] kept_indices(rs, n)[b],
        forall|i: int| 0 <= i < n && !beaten(rs, i) ==> #[trigger] kept_indices(rs, n).contains(i),
    decreases n,
{
    if n > 0 {
        lemma_kept_indices(rs, n - 1);
        let p = kept_indices(rs, n - 1);
        if !beaten(rs, n - 1) {
            let q = p.push(n - 1);
            assert(q[p.len() as int] == n - 1);
            assert forall|i: int| 0 <= i < n && !beaten(rs, i) implies #[trigger] q.contains(i) by {
                if i < n - 1 {
                    assert(p.contains(i));
                    let w = choose|w: int| 0 <= w < p.len() && p[w] == i;
                    assert(q[w] == i);
                }
            }
        } else {
            assert forall|i: int| 0 <= i < n && !beaten(rs, i) implies #[trigger] p.contains(i) by {
                assert(i < n - 1);
            }
        }
    }
}

/// Every result with a hash has a result of the same hash, with at least as
/// many seeders, that no other result beats.
proof fn lemma_best_of_hash(rs: Seq<PluginSearchResult>, i: int) -> (j: int)
    requires
        0 <= i < rs.len(),
        rs[i].info_hash is Some,
    ensures
        0 <= j < rs.len(),
        !beaten(rs, j),
        same_hash(rs[j], rs[i]),
        rs[j].seeders >= rs[i].seeders,
    decreases u32::MAX - rs[i].seeders, i,
{
    if beaten(rs, i) {
        let b = choose|b: int| 0 <= b < rs.len() && #[trigger] beats(rs, b, i);
        let j = lemma_best_of_hash(rs, b);
        j
    } else {
        i
    }
}

/// After deduplication no two results share an info hash (ignoring case).
pub proof fn lemma_dedup_hashes_unique(rs: Seq<PluginSearchResult>, a: int, b: int)
    requires
        0 <= a < b < dedup_spec(rs).len(),
        dedup_spec(rs)[a].info_hash is Some,
        dedup_spec(rs)[b].info_hash is Some,
    ensures
        lowercase(dedup_spec(rs)[a].info_hash->0@) != lowercase(dedup_spec(rs)[b].info_hash->0@),
{
    lemma_kept_indices(rs, rs.len() as int);
    let idx = kept_indices(rs, rs.len() as int);
    let i = idx[a];
    let j = idx[b];
    assert(i < j);
    if lowercase(rs[i].info_hash->0@) == lowercase(rs[j].info_hash->0@) {
        if rs[i].seeders >= rs[j].seeders {
            assert(beats(rs, i, j));
        } else {
            assert(beats(rs, j, i));
        }
    }
}

/// Deduplication keeps, for every info hash, a result with the most seeders
/// of that hash; it keeps every result without a hash; and what it keeps
/// comes from the input, in the input's order.
pub proof fn lemma_dedup_keeps_most_seeded(rs: Seq<PluginSearchResult>)
    ensures
        forall|i: int|
            0 <= i < rs.len() && rs[i].info_hash is Some ==> exists|k: int|
                0 <= k < dedup_spec(rs).len() && same_hash(#[trigger] dedup_spec(rs)[k], rs[i])
                    && dedup_spec(rs)[k].seeders >= rs[i].seeders,
        forall|k: int, i: int|
            0 <= k < dedup_spec(rs).len() && 0 <= i < rs.len() && same_hash(
                #[trigger] dedup_spec(rs)[k],
                #[trigger] rs[i],
            ) ==> dedup_spec(rs)[k].seeders >= rs[i].seeders,
        forall|i: int|
            0 <= i < rs.len() && rs[i].info_hash is None ==> #[trigger] dedup_spec(rs).contains(rs[i]),
        dedup_spec(rs).len() <= rs.len(),
{
    let n = rs.len() as int;
    lemma_kept_indices(rs, n);
    let idx = kept_indices(rs, n);
    let out = dedup_spec(rs);
    assert forall|i: int| 0 <= i < rs.len() && rs[i].info_hash is Some implies exists|k: int|
        0 <= k < out.len() && same_hash(#[trigger] out[k], rs[i]) && out[k].seeders >= rs[i].seeders by {
        let j = lemma_best_of_hash(rs, i);
        assert(idx.contains(j));
        let k = choose|k: int| 0 <= k < idx.len() && idx[k] == j;
        assert(out[k] == rs[j]);
    }
    assert forall|k: int, i: int|
        0 <= k < out.len() && 0 <= i < rs.len() && same_hash(#[trigger] out[k], #[trigger] rs[i]) implies out[k].seeders
        >= rs[i].seeders by {
        let m = idx[k];
        assert(out[k] == rs[m]);
        if rs[i].seeders > rs[m].seeders {
            assert(beats(rs, i, m));
        }
    }
    assert forall|i: int| 0 <= i < rs.len() && rs[i].info_hash is None implies #[trigger] out.contains(rs[i]) by {
        assert(!beaten(rs, i));
        assert(idx.contains(i));
        let k = choose|k: int| 0 <= k < idx.len() && idx[k] == i;
        assert(out[k] == rs[i]);
    }
    lemma_kept_len(rs, n);
}

proof fn lemma_kept_len(rs: Seq<PluginSearchResult>, n: int)
    requires
        0 <= n,
    ensures
        kept_indices(rs, n).len() <= n,
    decreases n,
{
    if n > 0 {
        lemma_kept_len(rs, n - 1);
    }
}

/// Whether result `i` is beaten, given every result's lower-cased hash.
fn is_beaten(rs: &Vec<PluginSearchResult>, low: &Vec<Option<String>>, i: usize) -> (r: bool)
    requires
        i < rs@.len(),
        low@.len() == rs@.len(),
        forall|k: int|
            0 <= k < rs@.len() ==> (#[trigger] low@[k] is Some <==> rs@[k].info_hash is Some) && (low@[k] is Some
                ==> low@[k]->0@ == lowercase(rs@[k].info_hash->0@)),
    ensures
        r == beaten(rs@, i as int),
{
    let n = rs.len();
    match &low[i] {
        None => {
            assert forall|j: int| 0 <= j < n implies !#[trigger] beats(rs@, j, i as int) by {
                assert(low@[i as int] is None);
            }
            false
        },
        Some(hi) => {
            let mut j: usize = 0;
            while j < n
                invariant
                    j <= n == rs@.len() == low@.len(),
                    i < n,
                    low@[i as int] == Some(*hi),
                    forall|k: int|
                        0 <= k < rs@.len() ==> (#[trigger] low@[k] is Some <==> rs@[k].info_hash is Some) && (
                        low@[k] is Some ==> low@[k]->0@ == lowercase(rs@[k].info_hash->0@)),
                    forall|t: int| 0 <= t < j ==> !#[trigger] beats(rs@, t, i as int),
                decreases n - j,
            {
                if j != i {
                    match &low[j] {
                        Some(hj) => {
                            if same_text(hj.as_str(), hi.as_str()) {
                                let sj = rs[j].seeders;
                                let si = rs[i].seeders;
                                if sj > si || (sj == si && j < i) {
                                    assert(beats(rs@, j as int, i as int));
                                    return true;
                                }
                            }
                        },
                        None => {},
                    }
                }
                j = j + 1;
            }
            false
        },
    }
}

/// Deduplicate results by info hash (ignoring case): of each hash only the
/// result with the most seeders stays (the first of them on a tie); results
/// without a hash all stay; order is kept.
pub fn dedup_by_info_hash(results: &mut Vec<PluginSearchResult>)
    ensures
        final(results)@ == dedup_spec(old(results)@),
{
    let mut input: Vec<PluginSearchResult> = Vec::new();
    std::mem::swap(&mut input, results);
    let ghost rs = input@;
    let n = input.len();
    let mut low: Vec<Option<String>> = Vec::new();
    let mut i: usize = 0;
    while i < n
        invariant
            i <= n == rs.len(),
            input@ == rs,
            low@.len() == i,
            forall|k: int|
                0 <= k < i ==> (#[trigger] low@[k] is Some <==> rs[k].info_hash is Some) && (low@[k] is Some
                    ==> low@[k]->0@ == lowercase(rs[k].info_hash->0@)),
        decreases n - i,
    {
        match &input[i].info_hash {
            Some(h) => low.push(Some(to_lowercase(h.as_str()))),
            None => low.push(None),
        }
        i = i + 1;
    }
    let mut out: Vec<PluginSearchResult> = Vec::new();
    let mut i: usize = 0;
    while i < n
        invariant
            i <= n == rs.len() == low@.len(),
            input@ == rs,
            forall|k: int|
                0 <= k < rs.len() ==> (#[trigger] low@[k] is Some <==> rs[k].info_hash is Some) && (low@[k] is Some
                    ==> low@[k]->0@ == lowercase(rs[k].info_hash->0@)),
            out@ == kept_indices(rs, i as int).map_values(|k: int| rs[k]),
        decreases n - i,
    {
        let b = is_beaten(&input, &low, i);
        let ghost before = kept_indices(rs, i as int);
        if !b {
            out.push(input[i].duplicate());
            assert(before.push(i as int).map_values(|k: int| rs[k]) =~= before.map_values(|k: int| rs[k]).push(
                rs[i as int],
            ));
        }
        i = i + 1;
    }
    *results = out;
}

// ─── Ordering and merging ───────────────────────────────────

/// Where `x` goes in a list ordered by seeders, most first: after every
/// result with at least as many seeders.
pub open spec fn insert_pos(s: Seq<PluginSearchResult>, x: PluginSearchResult) -> int {
    if exists|k: int| 0 <= k < s.len() && s[k].seeders < x.seeders && forall|j: int| 0 <= j < k ==> s[j].seeders >= x.seeders {
        choose|k: int| 0 <= k < s.len() && s[k].seeders < x.seeders && forall|j: int| 0 <= j < k ==> s[j].seeders >= x.seeders
    } else {
        s.len() as int
    }
}

/// The results ordered by seeders, most first; results with equal seeders
/// keep their order (a stable sort).
pub open spec fn by_seeders(rs: Seq<PluginSearchResult>) -> Seq<PluginSearchResult>
    decreases rs.len(),
{
    if rs.len() == 0 {
        seq![]
    } else {
        let s = by_seeders(rs.drop_last());
        s.insert(insert_pos(s, rs.last()), rs.last())
    }
}

/// Whether the results are ordered by seeders, most first.
pub open spec fn seeders_descending(s: Seq<PluginSearchResult>) -> bool {
    forall|i: int, j: int| 0 <= i < j < s.len() ==> (#[trigger] s[i]).seeders >= (#[trigger] s[j]).seeders
}

fn find_insert_pos(out: &Vec<PluginSearchResult>, x: &PluginSearchResult) -> (k: usize)
    ensures
        k == insert_pos(out@, *x),
        k <= out@.len(),
{
    let mut k: usize = 0;
    while k < out.len()
        invariant
            k <= out@.len(),
            forall|j: int| 0 <= j < k ==> out@[j].seeders >= x.seeders,
        decreases out@.len() - k,
    {
        if out[k].seeders < x.seeders {
            proof {
                let w = choose|w: int|
                    0 <= w < out@.len() && out@[w].seeders < x.seeders && forall|j: int| 0 <= j < w ==> out@[j].seeders
                        >= x.seeders;
                assert(0 <= k < out@.len() && out@[k as int].seeders < x.seeders && forall|j: int|
                    0 <= j < k ==> out@[j].seeders >= x.seeders);
                assert(w == k) by {
                    if w < k {
                        assert(out@[w].seeders >= x.seeders);
                    } else if w > k {
                        assert(out@[k as int].seeders >= x.seeders);
                    }
                }
            }
            return k;
        }
        k = k + 1;
    }
    proof {
        if exists|w: int|
            0 <= w < out@.len() && out@[w].seeders < x.seeders && forall|j: int| 0 <= j < w ==> out@[j].seeders
                >= x.seeders {
            let w = choose|w: int|
                0 <= w < out@.len() && out@[w].seeders < x.seeders && forall|j: int| 0 <= j < w ==> out@[j].seeders
                    >= x.seeders;
            assert(out@[w].seeders >= x.seeders);
        }
    }
    k
}

/// Order results by seeders, most first, keeping the order of equals.
pub fn sort_by_seeders(results: Vec<PluginSearchResult>) -> (r: Vec<PluginSearchResult>)
    ensures
        r@ == by_seeders(results@),
{
    let mut out: Vec<PluginSearchResult> = Vec::new();
    let mut i: usize = 0;
    while i < results.len()
        invariant
            i <= results@.len(),
            out@ == by_seeders(results@.subrange(0, i as int)),
        decreases results@.len() - i,
    {
        let x = results[i].duplicate();
        proof {
            let pre = results@.subrange(0, i + 1);
            assert(pre.drop_last() =~= results@.subrange(0, i as int));
            assert(pre.last() == results@[i as int]);
        }
        let k = find_insert_pos(&out, &x);
        out.insert(k, x);
        i = i + 1;
    }
    assert(results@.subrange(0, results@.len() as int) =~= results@);
    out
}

proof fn lemma_insert_pos_split(s: Seq<PluginSearchResult>, x: PluginSearchResult)
    requires
        seeders_descending(s),
    ensures
        0 <= insert_pos(s, x) <= s.len(),
        forall|j: int| 0 <= j < insert_pos(s, x) ==> s[j].seeders >= x.seeders,
        forall|j: int| insert_pos(s, x) <= j < s.len() ==> s[j].seeders < x.seeders,
{
    let k = insert_pos(s, x);
    if exists|w: int| 0 <= w < s.len() && s[w].seeders < x.seeders && forall|j: int| 0 <= j < w ==> s[j].seeders >= x.seeders {
        assert forall|j: int| k <= j < s.len() implies s[j].seeders < x.seeders by {
            if j > k {
                assert(s[k].seeders >= s[j].seeders);
            }
        }
    } else {
        assert forall|j: int| 0 <= j < s.len() implies s[j].seeders >= x.seeders by {
            if s[j].seeders < x.seeders {
                lemma_first_below(s, x, j);
            }
        }
    }
}

proof fn lemma_insert_keeps_order(s: Seq<PluginSearchResult>, x: PluginSearchResult)
    requires
        seeders_descending(s),
    ensures
        seeders_descending(s.insert(insert_pos(s, x), x)),
        0 <= insert_pos(s, x) <= s.len(),
{
    lemma_insert_pos_split(s, x);
    let k = insert_pos(s, x);
    let t = s.insert(k, x);
    assert forall|a: int, b: int| 0 <= a < b < t.len() implies (#[trigger] t[a]).seeders >= (#[trigger] t[b]).seeders by {
        if b < k {
            assert(t[a] == s[a] && t[b] == s[b]);
        } else if b == k {
            assert(t[a] == s[a]);
        } else if a < k {
            assert(t[a] == s[a] && t[b] == s[b - 1]);
        } else if a == k {
            assert(t[b] == s[b - 1]);
        } else {
            assert(t[a] == s[a - 1] && t[b] == s[b - 1]);
        }
    }
}

/// If some result has fewer seeders than `x`, a first such one exists.
proof fn lemma_first_below(s: Seq<PluginSearchResult>, x: PluginSearchResult, j: int)
    requires
        0 <= j < s.len(),
        s[j].seeders < x.seeders,
    ensures
        exists|w: int| 0 <= w < s.len() && s[w].seeders < x.seeders && forall|i: int| 0 <= i < w ==> s[i].seeders >= x.seeders,
    decreases j,
{
    if forall|i: int| 0 <= i < j ==> s[i].seeders >= x.seeders {
        assert(0 <= j < s.len() && s[j].seeders < x.seeders && forall|i: int| 0 <= i < j ==> s[i].seeders >= x.seeders);
    } else {
        let i = choose|i: int| 0 <= i < j && !(s[i].seeders >= x.seeders);
        lemma_first_below(s, x, i);
    }
}

/// Ordering by seeders gives a list ordered by seeders, most first, holding
/// exactly the same results.
pub proof fn lemma_by_seeders_sorted_permutation(rs: Seq<PluginSearchResult>)
    ensures
        seeders_descending(by_seeders(rs)),
        by_seeders(rs).to_multiset() == rs.to_multiset(),
    decreases rs.len(),
{
    if rs.len() > 0 {
        let init = rs.drop_last();
        lemma_by_seeders_sorted_permutation(init);
        let s = by_seeders(init);
        lemma_insert_keeps_order(s, rs.last());
        let k = insert_pos(s, rs.last());
        vstd::seq_lib::to_multiset_insert(s, k, rs.last());
        vstd::seq_lib::to_multiset_build(init, rs.last());
        assert(init.push(rs.last()) =~= rs);
    } else {
        assert(rs =~= Seq::<PluginSearchResult>::empty());
    }
}

/// The results of several indexers joined, in indexer order.
pub open spec fn joined(per: Seq<Seq<PluginSearchResult>>) -> Seq<PluginSearchResult>
    decreases per.len(),
{
    if per.len() == 0 {
        seq![]
    } else {
        joined(per.drop_last()) + per.last()
    }
}

/// Merge the results of several indexers: joined in indexer order,
/// deduplicated by info hash (the most seeded result of each hash stays),
/// then ordered by seeders, most first.
pub fn merge_results(per_plugin: Vec<Vec<PluginSearchResult>>) -> (r: Vec<PluginSearchResult>)
    ensures
        r@ == by_seeders(dedup_spec(joined(per_plugin@.map_values(|v: Vec<PluginSearchResult>| v@)))),
{
    let ghost per = per_plugin@.map_values(|v: Vec<PluginSearchResult>| v@);
    let mut combined: Vec<PluginSearchResult> = Vec::new();
    let mut i: usize = 0;
    while i < per_plugin.len()
        invariant
            i <= per_plugin@.len(),
            per == per_plugin@.map_values(|v: Vec<PluginSearchResult>| v@),
            combined@ == joined(per.subrange(0, i as int)),
        decreases per_plugin@.len() - i,
    {
        let part = &per_plugin[i];
        let ghost before = combined@;
        let mut k: usize = 0;
        while k < part.len()
            invariant
                k <= part@.len(),
                combined@ == before + part@.subrange(0, k as int),
            decreases part@.len() - k,
        {
            combined.push(part[k].duplicate());
            assert(before + part@.subrange(0, k + 1) =~= (before + part@.subrange(0, k as int)).push(part@[k as int]));
            k = k + 1;
        }
        proof {
            let pre = per.subrange(0, i + 1);
            assert(pre.drop_last() =~= per.subrange(0, i as int));
            assert(pre.last() == part@);
            assert(part@.subrange(0, part@.len() as int) =~= part@);
        }
        i = i + 1;
    }
    assert(per.subrange(0, per.len() as int) =~= per);
    dedup_by_info_hash(&mut combined);
    sort_by_seeders(combined)
}

/// Whether an indexer takes part in a search: every indexer when the enabled
/// list is empty, else those listed.
pub open spec fn plugin_enabled_spec(id: Seq<char>, enabled: Seq<String>) -> bool {
    enabled.len() == 0 || exists|k: int| 0 <= k < enabled.len() && (#[trigger] enabled[k])@ == id
}

/// Whether the indexer `id` takes part in a search with the given enabled list.
pub fn plugin_enabled(id: &str, enabled: &[String]) -> (r: bool)
    ensures
        r == plugin_enabled_spec(id@, enabled@),
{
    if enabled.len() == 0 {
        return true;
    }
    let mut k: usize = 0;
    while k < enabled.len()
        invariant
            k <= enabled@.len(),
            forall|t: int| 0 <= t < k ==> (#[trigger] enabled@[t])@ != id@,
        decreases enabled@.len() - k,
    {
        if same_text(enabled[k].as_str(), id) {
            return true;
        }
        k = k + 1;
    }
    false
}

// ─── Torbox search API ──────────────────────────────────────

/// The error of a search reply with a failing HTTP status: 429 and 401/403
/// have their own messages, any other non-success status names the status
/// line. `None` for a successful status.
pub fn search_status_error(status: u16, status_line: &str) -> (r: Option<TsubasaError>)
    ensures
        status == 429 ==> (r matches Some(TsubasaError::Search(m)) && m@
            == "Search rate limited. Please wait before searching again."@),
        (status == 401 || status == 403) ==> (r matches Some(TsubasaError::Search(m)) && m@
            == "Torbox API key is invalid or expired."@),
        status != 429 && status != 401 && status != 403 && !(200 <= status < 300) ==> (r matches Some(
            TsubasaError::Search(m),
        ) && m@ == "Search API returned HTTP "@ + status_line@),
        200 <= status < 300 ==> r is None,
{
    if status == 429 {
        Some(TsubasaError::Search(String::from_str("Search rate limited. Please wait before searching again.")))
    } else if status == 401 || status == 403 {
        Some(TsubasaError::Search(String::from_str("Torbox API key is invalid or expired.")))
    } else if status < 200 || status >= 300 {
        let mut m = String::from_str("Search API returned HTTP ");
        m.append(status_line);
        Some(TsubasaError::Search(m))
    } else {
        None
    }
}

/// The error of a search reply envelope that reports failure (`success` is
/// `Some(false)`): its error text, else its detail, else a generic message.
pub fn search_envelope_error(success: Option<bool>, error: Option<String>, detail: Option<String>) -> (r:
    Option<TsubasaError>)
    ensures
        success != Some(false) ==> r is None,
        success == Some(false) ==> (r matches Some(TsubasaError::Search(m)) && m@ == match error {
            Some(e) => e@,
            None => match detail {
                Some(d) => d@,
                None => "Unknown search API error"@,
            },
        }),
{
    match success {
        Some(false) => Some(
            TsubasaError::Search(
                match error {
                    Some(e) => e,
                    None => match detail {
                        Some(d) => d,
                        None => String::from_str("Unknown search API error"),
                    },
                },
            ),
        ),
        _ => None,
    }
}

/// The error when search is used without a Torbox API key.
pub fn search_key_missing() -> (e: TsubasaError)
    ensures
        e matches TsubasaError::Search(m) && m@
            == "Torbox API key is not configured. Set it in Settings to use search."@,
{
    TsubasaError::Search(String::from_str("Torbox API key is not configured. Set it in Settings to use search."))
}

/// The URL of a Torbox search request: the encoded query under the search
/// API's path, with its three query parameters.
pub open spec fn search_request_url_spec(query: Seq<char>, check_cache: bool) -> Seq<char> {
    "https://search-api.torbox.app/torrents/search/"@ + url_encoded(query) + "?metadata=false&check_cache="@
        + (if check_cache {
        "true"@
    } else {
        "false"@
    }) + "&check_owned=false"@
}

/// Build the URL the search request is sent to.
pub fn search_request_url(query: &str, check_cache: bool) -> (r: String)
    ensures
        r@ == search_request_url_spec(query@, check_cache),
{
    let mut u = String::from_str("https://search-api.torbox.app/torrents/search/");
    u.append(url_encode(query).as_str());
    u.append("?metadata=false&check_cache=");
    u.append(if check_cache { "true" } else { "false" });
    u.append("&check_owned=false");
    u
}

/// One raw result of the Torbox search API; every field may be missing.
#[derive(Debug, Clone)]
pub struct RawSearchResult {
    pub name: Option<String>,
    pub hash: Option<String>,
    pub size: Option<u64>,
    pub seeders: Option<u32>,
    pub leechers: Option<u32>,
    pub source: Option<String>,
    pub category: Option<String>,
    pub magnet: Option<String>,
    pub cached: Option<bool>,
    pub uploaded_at: Option<String>,
}

/// The text of an optional string, or `d` when it is missing.
pub open spec fn text_or(o: Option<String>, d: Seq<char>) -> Seq<char> {
    match o {
        Some(s) => s@,
        None => d,
    }
}

/// The magnet URI built for a hash and a name.
pub open spec fn built_magnet(hash: Seq<char>, name: Seq<char>) -> Seq<char> {
    "magnet:?xt=urn:btih:"@ + hash + "&dn="@ + url_encoded(name)
}

/// Build the magnet URI for a hash and a name.
pub fn build_magnet(hash: &str, name: &str) -> (r: String)
    ensures
        r@ == built_magnet(hash@, name@),
{
    let mut m = String::from_str("magnet:?xt=urn:btih:");
    m.append(hash);
    m.append("&dn=");
    m.append(url_encode(name).as_str());
    m
}

fn text_or_default(o: Option<String>, d: &str) -> (r: String)
    ensures
        r@ == text_or(o, d@),
{
    match o {
        Some(s) => s,
        None => String::from_str(d),
    }
}

/// Whether a raw result is kept: it has a name and a (lower-cased) hash.
pub open spec fn raw_kept(raw: RawSearchResult) -> bool {
    text_or(raw.name, seq![]).len() > 0 && lowercase(text_or(raw.hash, seq![])).len() > 0
}

/// `s` is the search result a kept raw result gives: missing numbers are 0,
/// a missing source is "Unknown", a missing category "other", and a missing
/// magnet is built from the lower-cased hash and the name.
pub open spec fn result_of_raw(s: SearchResult, raw: RawSearchResult) -> bool {
    let name = text_or(raw.name, seq![]);
    let hash = lowercase(text_or(raw.hash, seq![]));
    &&& s.name@ == name
    &&& s.info_hash@ == hash
    &&& s.size == match raw.size {
        Some(v) => v,
        None => 0,
    }
    &&& s.seeders == match raw.seeders {
        Some(v) => v,
        None => 0,
    }
    &&& s.leechers == match raw.leechers {
        Some(v) => v,
        None => 0,
    }
    &&& s.source@ == text_or(raw.source, "Unknown"@)
    &&& s.category@ == text_or(raw.category, "other"@)
    &&& s.magnet_uri@ == text_or(raw.magnet, built_magnet(hash, name))
    &&& s.cached == raw.cached
    &&& s.uploaded_at == raw.uploaded_at
}

/// A search result from a raw one; `None` when the name or the lower-cased
/// hash is empty.
pub fn search_result_from_raw(raw: &RawSearchResult) -> (r: Option<SearchResult>)
    ensures
        !raw_kept(*raw) ==> r is None,
        raw_kept(*raw) ==> (r matches Some(s) && result_of_raw(s, *raw)),
{
    let name = copy_opt(&raw.name);
    let hash = copy_opt(&raw.hash);
    let size = raw.size;
    let seeders = raw.seeders;
    let leechers = raw.leechers;
    let source = copy_opt(&raw.source);
    let category = copy_opt(&raw.category);
    let magnet = copy_opt(&raw.magnet);
    let cached = raw.cached;
    let uploaded_at = copy_opt(&raw.uploaded_at);
    proof {
        reveal_strlit("");
        assert(""@ =~= Seq::<char>::empty());
    }
    let name = text_or_default(name, "");
    let raw_hash = text_or_default(hash, "");
    let info_hash = to_lowercase(raw_hash.as_str());
    if name.as_str().unicode_len() == 0 || info_hash.as_str().unicode_len() == 0 {
        return None;
    }
    let magnet_uri = match magnet {
        Some(m) => m,
        None => build_magnet(info_hash.as_str(), name.as_str()),
    };
    Some(
        SearchResult {
            name,
            info_hash,
            size: match size {
                Some(v) => v,
                None => 0,
            },
            seeders: match seeders {
                Some(v) => v,
                None => 0,
            },
            leechers: match leechers {
                Some(v) => v,
                None => 0,
            },
            source: text_or_default(source, "Unknown"),
            category: text_or_default(category, "other"),
            magnet_uri,
            cached,
            uploaded_at,
        },
    )
}

/// The raw results that are kept, in order.
pub open spec fn kept_raw(raws: Seq<RawSearchResult>) -> Seq<RawSearchResult>
    decreases raws.len(),
{
    if raws.len() == 0 {
        seq![]
    } else {
        let p = kept_raw(raws.drop_last());
        if raw_kept(raws.last()) {
            p.push(raws.last())
        } else {
            p
        }
    }
}

/// The search results of a reply: one for each kept raw result, in order.
pub fn search_results(raws: &[RawSearchResult]) -> (r: Vec<SearchResult>)
    ensures
        r@.len() == kept_raw(raws@).len(),
        forall|k: int| 0 <= k < r@.len() ==> result_of_raw(#[trigger] r@[k], kept_raw(raws@)[k]),
{
    let ghost all = raws@;
    let mut out: Vec<SearchResult> = Vec::new();
    let mut i: usize = 0;
    while i < raws.len()
        invariant
            i <= all.len(),
            all == raws@,
            out@.len() == kept_raw(all.subrange(0, i as int)).len(),
            forall|k: int|
                0 <= k < out@.len() ==> result_of_raw(#[trigger] out@[k], kept_raw(all.subrange(0, i as int))[k]),
        decreases all.len() - i,
    {
        proof {
            assert(all.subrange(0, i + 1).drop_last() =~= all.subrange(0, i as int));
            assert(all.subrange(0, i + 1).last() == all[i as int]);
        }
        let ghost old_out = out@;
        match search_result_from_raw(&raws[i]) {
            Some(s) => {
                out.push(s);
            },
            None => {},
        }
        proof {
            assert forall|k: int| 0 <= k < out@.len() implies result_of_raw(
                #[trigger] out@[k],
                kept_raw(all.subrange(0, i + 1))[k],
            ) by {
                if k < old_out.len() {
                    assert(out@[k] == old_out[k]);
                }
            }
        }
        i = i + 1;
    }
    assert(all.subrange(0, all.len() as int) =~= all);
    out
}

/// A parsed search reply: its `success`, `error` and `detail` fields and the
/// raw results under `data.torrents` (none where that is missing).
#[derive(Debug)]
pub struct SearchEnvelope {
    pub success: Option<bool>,
    pub error: Option<String>,
    pub detail: Option<String>,
    pub torrents: Vec<RawSearchResult>,
}

/// The outcome of a search: no request without a Torbox key; then the
/// reply's status decides; a successful reply's body that does not parse is
/// an error naming the parser's message (`envelope` is the parsed reply or
/// that message); an envelope that reports failure gives its error; else the
/// results, one for each raw result with a name and a hash.
pub fn search_outcome(
    key_configured: bool,
    status: u16,
    status_line: &str,
    envelope: Result<SearchEnvelope, String>,
) -> (r: Result<Vec<SearchResult>, TsubasaError>)
    ensures
        !key_configured ==> (r matches Err(TsubasaError::Search(m)) && m@
            == "Torbox API key is not configured. Set it in Settings to use search."@),
        key_configured && status == 429 ==> (r matches Err(TsubasaError::Search(m)) && m@
            == "Search rate limited. Please wait before searching again."@),
        key_configured && (status == 401 || status == 403) ==> (r matches Err(TsubasaError::Search(m)) && m@
            == "Torbox API key is invalid or expired."@),
        key_configured && status != 429 && status != 401 && status != 403 && !(200 <= status < 300) ==> (
        r matches Err(TsubasaError::Search(m)) && m@ == "Search API returned HTTP "@ + status_line@),
        key_configured && 200 <= status < 300 ==> match envelope {
            Err(e) => r matches Err(TsubasaError::Search(m)) && m@ == "Failed to parse search response: "@ + e@,
            Ok(env) => if env.success == Some(false) {
                r matches Err(TsubasaError::Search(m)) && m@ == match env.error {
                    Some(e) => e@,
                    None => match env.detail {
                        Some(d) => d@,
                        None => "Unknown search API error"@,
                    },
                }
            } else {
                r matches Ok(v) && v@.len() == kept_raw(env.torrents@).len() && forall|k: int|
                    0 <= k < v@.len() ==> result_of_raw(#[trigger] v@[k], kept_raw(env.torrents@)[k])
            },
        },
{
    if !key_configured {
        return Err(search_key_missing());
    }
    if let Some(e) = search_status_error(status, status_line) {
        return Err(e);
    }
    match envelope {
        Err(e) => {
            let mut m = String::from_str("Failed to parse search response: ");
            m.append(e.as_str());
            Err(TsubasaError::Search(m))
        },
        Ok(env) => {
            if let Some(e) = search_envelope_error(env.success, env.error, env.detail) {
                return Err(e);
            }
            Ok(search_results(env.torrents.as_slice()))
        },
    }
}

} // verus!
