//! Scraping indexer pages: the HTML indexers' result lists, read as text.
//!
//! Positions are counted in characters; on pages where the indexers' markup
//! is found, each rule reads the same text as a byte-offset reading does.

use vstd::prelude::*;

use crate::ip_filter::blocklist::{parse_u32_text, u32_parse};
use crate::search::PluginSearchResult;
use crate::text::{
    absent_in, chars_of, find_char, find_first, find_first_seq, find_last_seq, find_seq, first_at,
    has_prefix, lowercase, rfind_seq, split_ranges, split_seq, starts_with_at, strip_commas, to_lowercase,
    trim, trim_range, without_commas, uppercase, to_uppercase, word_ranges, ws_words,
};

verus! {

proof fn lemma_sub_sub(v: Seq<char>, a: int, b: int, c: int, d: int)
    requires
        0 <= a <= b <= v.len(),
        0 <= c <= d <= b - a,
    ensures
        v.subrange(a, b).subrange(c, d) == v.subrange(a + c, a + d),
{
    assert(v.subrange(a, b).subrange(c, d) =~= v.subrange(a + c, a + d));
}

/// The text of `v[a..b]` as a string.
fn text_of(html: &str, v: &Vec<char>, a: usize, b: usize) -> (r: String)
    requires
        v@ == html@,
        a <= b <= v@.len(),
    ensures
        r@ == v@.subrange(a as int, b as int),
{
    String::from_str(html.substring_char(a, b))
}

// ─── Info hash of a scraped magnet ──────────────────────────

/// The lower-cased info hash of a scraped magnet link: the text after the
/// first `btih:` up to the next `&` (or the end).
pub open spec fn magnet_btih(m: Seq<char>) -> Option<Seq<char>> {
    match find_first_seq(m, "btih:"@) {
        Some(p) => {
            let rest = m.subrange(p + 5, m.len() as int);
            let e = match find_first(rest, '&') {
                Some(e) => e,
                None => rest.len() as int,
            };
            Some(lowercase(rest.subrange(0, e)))
        },
        None => None,
    }
}

/// The lower-cased info hash of a scraped magnet link, if it has one.
pub fn hash_from_magnet(m: &str) -> (r: Option<String>)
    ensures
        match r {
            Some(h) => magnet_btih(m@) == Some(h@),
            None => magnet_btih(m@) is None,
        },
{
    let v = chars_of(m);
    let n = v.len();
    let pat = chars_of("btih:");
    proof {
        reveal_strlit("btih:");
        assert(v@.subrange(0, n as int) =~= v@);
    }
    match find_seq(&v, 0, n, &pat) {
        None => None,
        Some(p) => {
            let start = p + 5;
            proof {
                lemma_sub_sub(v@, 0, n as int, start as int, n as int);
            }
            let end = match find_char(&v, start, n, '&') {
                Some(e) => e,
                None => n,
            };
            proof {
                lemma_sub_sub(v@, start as int, n as int, 0, end - start);
            }
            let text = m.substring_char(start, end);
            Some(to_lowercase(text))
        },
    }
}

// ─── 1337x ──────────────────────────────────────────────────

/// One 1337x result before its magnet link is fetched.
#[derive(Debug, Clone, PartialEq, Eq)]
pub struct PartialResult {
    pub title: String,
    /// Path of the result's page on the site.
    pub detail_path: String,
    pub seeders: u32,
    pub leechers: u32,
    /// Size as the page writes it, such as "1.5 GB".
    pub size: String,
    pub upload_date: Option<String>,
}

/// The link found at the start of `t` (which starts with `<a href="/torrent/`):
/// its trimmed title and its path, when both close and the title is a plain,
/// non-empty text.
pub open spec fn leet_link(t: Seq<char>) -> Option<(Seq<char>, Seq<char>)> {
    let r = t.subrange(9, t.len() as int);
    match find_first(r, '"') {
        None => None,
        Some(he) => match find_first(r, '>') {
            None => None,
            Some(te) => {
                let u = r.subrange(te + 1, r.len() as int);
                match find_first_seq(u, "</a>"@) {
                    None => None,
                    Some(ce) => {
                        let title = trim(u.subrange(0, ce));
                        if title.len() > 0 && !title.contains('<') {
                            Some((title, r.subrange(0, he)))
                        } else {
                            None
                        }
                    },
                }
            },
        },
    }
}

/// The result links of a 1337x page (title and path), in page order: every
/// `<a href="/torrent/` that starts a well-formed link.
pub open spec fn leet_links(s: Seq<char>) -> Seq<(Seq<char>, Seq<char>)>
    decreases s.len(),
{
    match find_first_seq(s, "<a href=\"/torrent/"@) {
        Some(o) => if 0 <= o && o + 9 <= s.len() {
            let rest = leet_links(s.subrange(o + 1, s.len() as int));
            match leet_link(s.subrange(o, s.len() as int)) {
                Some(l) => seq![l] + rest,
                None => rest,
            }
        } else {
            seq![]
        },
        None => seq![],
    }
}

/// The number in a table cell starting at `t`: the trimmed text up to the next
/// `<`, when it parses.
pub open spec fn number_cell(t: Seq<char>) -> Option<u32> {
    match find_first(t, '<') {
        Some(e) => match u32_parse(trim(t.subrange(0, e))) {
            Ok(v) => Some(v),
            Err(_) => None,
        },
        None => None,
    }
}

/// The seeders, leechers and size read from the text `t` that follows a
/// seeders cell's opening tag.
pub open spec fn leet_cell(t: Seq<char>) -> (Option<u32>, Option<u32>, Option<Seq<char>>) {
    let seeds = number_cell(t);
    let leeches = match find_first_seq(t, "class=\"coll-3 leeches\">"@) {
        Some(lp) => number_cell(t.subrange(lp + 23, t.len() as int)),
        None => None,
    };
    let size = match find_first_seq(t, "class=\"coll-4 size"@) {
        Some(sp) => {
            let t3 = t.subrange(sp, t.len() as int);
            match find_first(t3, '>') {
                Some(te) => {
                    let u = t3.subrange(te + 1, t3.len() as int);
                    match find_first(u, '<') {
                        Some(e) => Some(trim(u.subrange(0, e))),
                        None => None,
                    }
                },
                None => None,
            }
        },
        None => None,
    };
    (seeds, leeches, size)
}

/// The cells read after each seeders cell of a 1337x page, in page order;
/// the search resumes one character past each seeders tag.
pub open spec fn leet_cells(s: Seq<char>) -> Seq<(Option<u32>, Option<u32>, Option<Seq<char>>)>
    decreases s.len(),
{
    match find_first_seq(s, "class=\"coll-2 seeds\">"@) {
        Some(o) => if 0 <= o && o + 21 <= s.len() {
            let c = leet_cell(s.subrange(o + 21, s.len() as int));
            if o + 22 <= s.len() {
                seq![c] + leet_cells(s.subrange(o + 22, s.len() as int))
            } else {
                seq![c]
            }
        } else {
            seq![]
        },
        None => seq![],
    }
}

fn leet_link_at(html: &str, v: &Vec<char>, k: usize) -> (r: Option<(String, String)>)
    requires
        v@ == html@,
        k + 9 <= v@.len(),
    ensures
        match r {
            Some((t, h)) => leet_link(v@.subrange(k as int, v@.len() as int)) == Some((t@, h@)),
            None => leet_link(v@.subrange(k as int, v@.len() as int)) is None,
        },
{
    let n = v.len();
    let hs = k + 9;
    let ghost t = v@.subrange(k as int, n as int);
    proof {
        lemma_sub_sub(v@, k as int, n as int, 9, n - k);
    }
    let he = match find_char(v, hs, n, '"') {
        None => {
            return None;
        },
        Some(he) => he,
    };
    let te = match find_char(v, hs, n, '>') {
        None => {
            return None;
        },
        Some(te) => te,
    };
    let ts = te + 1;
    proof {
        lemma_sub_sub(v@, hs as int, n as int, ts - hs, n - hs);
        lemma_sub_sub(v@, hs as int, n as int, 0, he - hs);
    }
    let close = chars_of("</a>");
    let ce = match find_seq(v, ts, n, &close) {
        None => {
            return None;
        },
        Some(ce) => ce,
    };
    proof {
        lemma_sub_sub(v@, ts as int, n as int, 0, ce - ts);
    }
    let (a, b) = trim_range(v, ts, ce);
    if a < b {
        match find_char(v, a, b, '<') {
            Some(x) => {
                proof {
                    assert(v@.subrange(a as int, b as int)[x - a] == '<');
                }
                None
            },
            None => {
                proof {
                    assert forall|i: int| 0 <= i < b - a implies v@.subrange(a as int, b as int)[i] != '<' by {
                        assert(v@[a + i] != '<');
                    }
                }
                Some((text_of(html, v, a, b), text_of(html, v, hs, he)))
            },
        }
    } else {
        None
    }
}

fn leet_links_exec(html: &str, v: &Vec<char>) -> (r: Vec<(String, String)>)
    requires
        v@ == html@,
    ensures
        r@.map_values(|p: (String, String)| (p.0@, p.1@)) == leet_links(v@),
{
    let n = v.len();
    let pat = chars_of("<a href=\"/torrent/");
    proof {
        reveal_strlit("<a href=\"/torrent/");
    }
    let mut out: Vec<(String, String)> = Vec::new();
    let ghost mut acc: Seq<(Seq<char>, Seq<char>)> = seq![];
    let mut pos: usize = 0;
    assert(v@.subrange(0, n as int) =~= v@);
    loop
        invariant
            pos <= n == v@.len(),
            v@ == html@,
            pat@ == "<a href=\"/torrent/"@,
            pat@.len() == 18,
            leet_links(v@) == acc + leet_links(v@.subrange(pos as int, n as int)),
            out@.map_values(|p: (String, String)| (p.0@, p.1@)) == acc,
        decreases n - pos,
    {
        let ghost s = v@.subrange(pos as int, n as int);
        match find_seq(v, pos, n, &pat) {
            None => {
                assert(leet_links(s) == Seq::<(Seq<char>, Seq<char>)>::empty());
                assert(acc + Seq::<(Seq<char>, Seq<char>)>::empty() =~= acc);
                return out;
            },
            Some(k) => {
                proof {
                    lemma_sub_sub(v@, pos as int, n as int, k - pos, n - pos);
                    lemma_sub_sub(v@, pos as int, n as int, k - pos + 1, n - pos);
                }
                let entry = leet_link_at(html, v, k);
                let ghost before = out@;
                match entry {
                    Some(p) => {
                        out.push(p);
                        proof {
                            let l = (out@.last().0@, out@.last().1@);
                            assert(out@.map_values(|p: (String, String)| (p.0@, p.1@)) =~= acc.push(l));
                            assert(acc + (seq![l] + leet_links(v@.subrange(k + 1, n as int))) =~= acc.push(l)
                                + leet_links(v@.subrange(k + 1, n as int)));
                            acc = acc.push(l);
                        }
                    },
                    None => {},
                }
                pos = k + 1;
            },
        }
    }
}

fn number_cell_at(v: &Vec<char>, e: usize) -> (r: Option<u32>)
    requires
        e <= v@.len(),
    ensures
        r == number_cell(v@.subrange(e as int, v@.len() as int)),
{
    let n = v.len();
    match find_char(v, e, n, '<') {
        None => None,
        Some(c) => {
            proof {
                lemma_sub_sub(v@, e as int, n as int, 0, c - e);
            }
            let (a, b) = trim_range(v, e, c);
            match parse_u32_text(v, a, b) {
                Ok(x) => Some(x),
                Err(_) => None,
            }
        },
    }
}

fn leet_cell_at(html: &str, v: &Vec<char>, e: usize) -> (r: (Option<u32>, Option<u32>, Option<String>))
    requires
        v@ == html@,
        e <= v@.len(),
    ensures
        ({
            let c = leet_cell(v@.subrange(e as int, v@.len() as int));
            &&& r.0 == c.0
            &&& r.1 == c.1
            &&& match r.2 {
                Some(s) => c.2 == Some(s@),
                None => c.2 is None,
            }
        }),
{
    let n = v.len();
    let ghost t = v@.subrange(e as int, n as int);
    let seeds = number_cell_at(v, e);
    let lpat = chars_of("class=\"coll-3 leeches\">");
    proof {
        reveal_strlit("class=\"coll-3 leeches\">");
    }
    let leeches = match find_seq(v, e, n, &lpat) {
        Some(lp) => {
            proof {
                lemma_sub_sub(v@, e as int, n as int, lp + 23 - e, n - e);
            }
            number_cell_at(v, lp + 23)
        },
        None => None,
    };
    let spat = chars_of("class=\"coll-4 size");
    proof {
        reveal_strlit("class=\"coll-4 size");
    }
    let size = match find_seq(v, e, n, &spat) {
        Some(sp) => {
            proof {
                lemma_sub_sub(v@, e as int, n as int, sp - e, n - e);
            }
            match find_char(v, sp, n, '>') {
                Some(te) => {
                    proof {
                        lemma_sub_sub(v@, sp as int, n as int, te + 1 - sp, n - sp);
                    }
                    match find_char(v, te + 1, n, '<') {
                        Some(c) => {
                            proof {
                                lemma_sub_sub(v@, te + 1, n as int, 0, c - te - 1);
                            }
                            let (a, b) = trim_range(v, te + 1, c);
                            Some(text_of(html, v, a, b))
                        },
                        None => None,
                    }
                },
                None => None,
            }
        },
        None => None,
    };
    (seeds, leeches, size)
}

/// The view of a cell read from the page.
pub open spec fn cell_view(c: (Option<u32>, Option<u32>, Option<String>)) -> (Option<u32>, Option<u32>, Option<Seq<char>>) {
    (c.0, c.1, match c.2 {
        Some(s) => Some(s@),
        None => None,
    })
}

fn leet_cells_exec(html: &str, v: &Vec<char>) -> (r: Vec<(Option<u32>, Option<u32>, Option<String>)>)
    requires
        v@ == html@,
    ensures
        r@.map_values(|c: (Option<u32>, Option<u32>, Option<String>)| cell_view(c)) == leet_cells(v@),
{
    let n = v.len();
    let pat = chars_of("class=\"coll-2 seeds\">");
    proof {
        reveal_strlit("class=\"coll-2 seeds\">");
    }
    let mut out: Vec<(Option<u32>, Option<u32>, Option<String>)> = Vec::new();
    let ghost mut acc: Seq<(Option<u32>, Option<u32>, Option<Seq<char>>)> = seq![];
    let mut pos: usize = 0;
    assert(v@.subrange(0, n as int) =~= v@);
    loop
        invariant
            pos <= n == v@.len(),
            v@ == html@,
            pat@ == "class=\"coll-2 seeds\">"@,
            pat@.len() == 21,
            leet_cells(v@) == acc + leet_cells(v@.subrange(pos as int, n as int)),
            out@.map_values(|c: (Option<u32>, Option<u32>, Option<String>)| cell_view(c)) == acc,
        decreases n - pos,
    {
        let ghost s = v@.subrange(pos as int, n as int);
        match find_seq(v, pos, n, &pat) {
            None => {
                assert(acc + Seq::<(Option<u32>, Option<u32>, Option<Seq<char>>)>::empty() =~= acc);
                return out;
            },
            Some(k) => {
                let e = k + 21;
                proof {
                    lemma_sub_sub(v@, pos as int, n as int, e - pos, n - pos);
                }
                let c = leet_cell_at(html, v, e);
                let ghost cv = cell_view(c);
                out.push(c);
                proof {
                    assert(out@.map_values(|c: (Option<u32>, Option<u32>, Option<String>)| cell_view(c)) =~= acc.push(cv));
                }
                if e < n {
                    proof {
                        lemma_sub_sub(v@, pos as int, n as int, e + 1 - pos, n - pos);
                        assert(acc + (seq![cv] + leet_cells(v@.subrange(e + 1, n as int))) =~= acc.push(cv)
                            + leet_cells(v@.subrange(e + 1, n as int)));
                        acc = acc.push(cv);
                    }
                    pos = e + 1;
                } else {
                    proof {
                        assert(acc + seq![cv] =~= acc.push(cv));
                    }
                    return out;
                }
            },
        }
    }
}

/// A 1337x result row as the page gives it: title, path, seeders, leechers, size.
pub open spec fn leet_row(links: Seq<(Seq<char>, Seq<char>)>, cells: Seq<(Option<u32>, Option<u32>, Option<Seq<char>>)>, i: int) -> (Seq<char>, Seq<char>, u32, u32, Seq<char>) {
    let has = i < cells.len();
    (
        links[i].0,
        links[i].1,
        if has && cells[i].0 is Some { cells[i].0->0 } else { 0 },
        if has && cells[i].1 is Some { cells[i].1->0 } else { 0 },
        if has && cells[i].2 is Some { cells[i].2->0 } else { seq![] },
    )
}

impl PartialResult {
    /// The row this result stands for.
    pub open spec fn row(self) -> (Seq<char>, Seq<char>, u32, u32, Seq<char>) {
        (self.title@, self.detail_path@, self.seeders, self.leechers, self.size@)
    }
}

/// The text between the first `start` marker and the next `end` marker after it.
pub open spec fn between(h: Seq<char>, start: Seq<char>, end: Seq<char>) -> Option<Seq<char>> {
    match find_first_seq(h, start) {
        Some(p) => {
            let rest = h.subrange(p + start.len(), h.len() as int);
            match find_first_seq(rest, end) {
                Some(q) => Some(rest.subrange(0, q)),
                None => None,
            }
        },
        None => None,
    }
}

impl crate::search::plugins::LeetPlugin {
    /// The text between the first `start` marker and the next `end` marker.
    pub fn extract_between(html: &str, start: &str, end: &str) -> (r: Option<String>)
        ensures
            match r {
                Some(t) => between(html@, start@, end@) == Some(t@),
                None => between(html@, start@, end@) is None,
            },
    {
        let v = chars_of(html);
        let n = v.len();
        let sv = chars_of(start);
        let ev = chars_of(end);
        assert(v@.subrange(0, n as int) =~= v@);
        match find_seq(&v, 0, n, &sv) {
            None => None,
            Some(p) => {
                let after = p + sv.len();
                proof {
                    lemma_sub_sub(v@, 0, n as int, after as int, n as int);
                }
                match find_seq(&v, after, n, &ev) {
                    None => None,
                    Some(q) => {
                        proof {
                            lemma_sub_sub(v@, after as int, n as int, 0, q - after);
                        }
                        Some(text_of(html, &v, after, q))
                    },
                }
            },
        }
    }

    /// Parse the result rows of a 1337x search page: one per result link, in
    /// page order, with the seeders, leechers and size of the matching table
    /// row (zero or empty where the page gives none).
    pub fn parse_search_results(html: &str) -> (r: Vec<PartialResult>)
        ensures
            r@.len() == leet_links(html@).len(),
            forall|i: int|
                0 <= i < r@.len() ==> (#[trigger] r@[i]).row() == leet_row(
                    leet_links(html@),
                    leet_cells(html@),
                    i,
                ) && r@[i].upload_date is None,
    {
        let v = chars_of(html);
        let links = leet_links_exec(html, &v);
        let cells = leet_cells_exec(html, &v);
        let ghost lv = links@.map_values(|p: (String, String)| (p.0@, p.1@));
        let ghost cv = cells@.map_values(|c: (Option<u32>, Option<u32>, Option<String>)| cell_view(c));
        let mut out: Vec<PartialResult> = Vec::new();
        let mut i: usize = 0;
        while i < links.len()
            invariant
                i <= links@.len(),
                lv == links@.map_values(|p: (String, String)| (p.0@, p.1@)),
                cv == cells@.map_values(|c: (Option<u32>, Option<u32>, Option<String>)| cell_view(c)),
                out@.len() == i,
                forall|j: int|
                    0 <= j < i ==> (#[trigger] out@[j]).row() == leet_row(lv, cv, j) && out@[j].upload_date is None,
            decreases links@.len() - i,
        {
            let (seeders, leechers, size) = if i < cells.len() {
                let c = &cells[i];
                (
                    match c.0 {
                        Some(x) => x,
                        None => 0,
                    },
                    match c.1 {
                        Some(x) => x,
                        None => 0,
                    },
                    match &c.2 {
                        Some(s) => s.clone(),
                        None => String::new(),
                    },
                )
            } else {
                (0, 0, String::new())
            };
            let p = PartialResult {
                title: links[i].0.clone(),
                detail_path: links[i].1.clone(),
                seeders,
                leechers,
                size,
                upload_date: None,
            };
            proof {
                assert(lv[i as int] == (links@[i as int].0@, links@[i as int].1@));
                if i < cells.len() {
                    assert(cv[i as int] == cell_view(cells@[i as int]));
                }
                assert(Seq::<char>::empty() =~= seq![]);
            }
            out.push(p);
            i = i + 1;
        }
        out
    }
}

// ─── Scraped results ────────────────────────────────────────

/// A result read from an indexer page, with its size still as the page
/// writes it.
#[derive(Debug, Clone, PartialEq, Eq)]
pub struct ScrapedResult {
    pub title: String,
    pub magnet: Option<String>,
    pub torrent_url: Option<String>,
    pub info_hash: Option<String>,
    /// The size as the page writes it, such as "1.5 GiB" ("" when absent).
    pub size_text: String,
    pub seeders: u32,
    pub leechers: u32,
    pub upload_date: Option<String>,
    pub source: String,
    pub category: Option<String>,
    pub source_url: String,
}

/// A scraped result as text.
pub struct ResultView {
    pub title: Seq<char>,
    pub magnet: Option<Seq<char>>,
    pub torrent_url: Option<Seq<char>>,
    pub info_hash: Option<Seq<char>>,
    pub size_text: Seq<char>,
    pub seeders: u32,
    pub leechers: u32,
    pub upload_date: Option<Seq<char>>,
    pub source: Seq<char>,
    pub category: Option<Seq<char>>,
    pub source_url: Seq<char>,
}

/// The text of an optional string.
pub open spec fn opt_view(o: Option<String>) -> Option<Seq<char>> {
    match o {
        Some(s) => Some(s@),
        None => None,
    }
}

impl ScrapedResult {
    /// This result as text.
    pub open spec fn view(self) -> ResultView {
        ResultView {
            title: self.title@,
            magnet: opt_view(self.magnet),
            torrent_url: opt_view(self.torrent_url),
            info_hash: opt_view(self.info_hash),
            size_text: self.size_text@,
            seeders: self.seeders,
            leechers: self.leechers,
            upload_date: opt_view(self.upload_date),
            source: self.source@,
            category: opt_view(self.category),
            source_url: self.source_url@,
        }
    }

    /// The search result, once the size text is read as a byte count.
    pub fn into_result(self, size_bytes: u64) -> (r: PluginSearchResult)
        ensures
            r.title == self.title && r.magnet == self.magnet && r.torrent_url == self.torrent_url,
            r.info_hash == self.info_hash && r.size_bytes == size_bytes,
            r.seeders == self.seeders && r.leechers == self.leechers,
            r.upload_date == self.upload_date && r.source == self.source,
            r.category == self.category && r.source_url == self.source_url,
    {
        PluginSearchResult {
            title: self.title,
            magnet: self.magnet,
            torrent_url: self.torrent_url,
            info_hash: self.info_hash,
            size_bytes,
            seeders: self.seeders,
            leechers: self.leechers,
            upload_date: self.upload_date,
            source: self.source,
            category: self.category,
            source_url: self.source_url,
        }
    }
}

/// The hash of an optional magnet link.
pub open spec fn hash_of(magnet: Option<Seq<char>>) -> Option<Seq<char>> {
    match magnet {
        Some(m) => magnet_btih(m),
        None => None,
    }
}

/// `a - b`, or 0 when `b` is larger.
pub open spec fn sat_sub(a: int, b: int) -> int {
    if a >= b {
        a - b
    } else {
        0
    }
}

// ─── Nyaa ───────────────────────────────────────────────────

/// The value of attribute `attr` (given with its `="`) found from the start of
/// `h`, within 200 characters past the first `hc`.
pub open spec fn nyaa_attr(h: Seq<char>, hc: Seq<char>, attr: Seq<char>) -> Option<Seq<char>> {
    match find_first_seq(h, hc) {
        Some(p) => {
            let after = p + hc.len();
            let w = if 200 < h.len() - after {
                200
            } else {
                h.len() - after
            };
            let region = h.subrange(0, after + w);
            match find_first_seq(region, attr) {
                Some(ap) => {
                    let r2 = region.subrange(ap + attr.len(), region.len() as int);
                    match find_first(r2, '"') {
                        Some(e) => Some(r2.subrange(0, e)),
                        None => None,
                    }
                },
                None => None,
            }
        },
        None => None,
    }
}

/// The `href` value of the link whose target holds `contains`: the last
/// `href="` before the first `contains`, up to the closing quote.
pub open spec fn nyaa_href(h: Seq<char>, contains: Seq<char>) -> Option<Seq<char>> {
    match find_first_seq(h, contains) {
        Some(p) => match find_last_seq(h.subrange(0, p), "href=\""@) {
            Some(hp) => {
                let rest = h.subrange(hp + 6, h.len() as int);
                match find_first(rest, '"') {
                    Some(e) => Some(rest.subrange(0, e)),
                    None => None,
                }
            },
            None => None,
        },
        None => None,
    }
}

/// The trimmed text of a table cell piece (what follows `<td`): after its
/// opening tag's `>`, up to `</td`; "" when either is missing.
pub open spec fn td_text(td: Seq<char>) -> Seq<char> {
    match find_first(td, '>') {
        Some(te) => {
            let text = td.subrange(te + 1, td.len() as int);
            match find_first_seq(text, "</td"@) {
                Some(c) => trim(text.subrange(0, c)),
                None => seq![],
            }
        },
        None => seq![],
    }
}

/// The text of cell piece `idx`, or "" past the end.
pub open spec fn td_text_at(tds: Seq<Seq<char>>, idx: int) -> Seq<char> {
    if 0 <= idx < tds.len() {
        td_text(tds[idx])
    } else {
        seq![]
    }
}

/// The number in cell piece `idx` (commas ignored), or 0.
pub open spec fn td_number_at(tds: Seq<Seq<char>>, idx: int) -> u32 {
    match u32_parse(without_commas(td_text_at(tds, idx))) {
        Ok(v) => v,
        Err(_) => 0,
    }
}

/// The first magnet link of `h`, up to its closing quote (or the end).
pub open spec fn magnet_in(h: Seq<char>) -> Option<Seq<char>> {
    match find_first_seq(h, "magnet:?"@) {
        Some(mp) => {
            let rest = h.subrange(mp, h.len() as int);
            let e = match find_first(rest, '"') {
                Some(e) => e,
                None => rest.len() as int,
            };
            Some(rest.subrange(0, e))
        },
        None => None,
    }
}

/// The result a Nyaa table row gives (the text after `<tr class="`), if it is
/// a result row with a title.
pub open spec fn nyaa_row(row: Seq<char>) -> Option<ResultView> {
    if has_prefix(row, "table-responsive"@) {
        None
    } else {
        let title = match nyaa_attr(row, "/view/"@, "title=\""@) {
            Some(t) => t,
            None => seq![],
        };
        if title.len() == 0 {
            None
        } else {
            let tds = split_seq(row, "<td"@);
            let n = tds.len() as int;
            let magnet = magnet_in(row);
            let date = td_text_at(tds, sat_sub(n, 4));
            Some(
                ResultView {
                    title,
                    magnet,
                    torrent_url: match nyaa_href(row, "/download/"@) {
                        Some(p) => Some("https://nyaa.si"@ + p),
                        None => None,
                    },
                    info_hash: hash_of(magnet),
                    size_text: td_text_at(tds, sat_sub(n, 5)),
                    seeders: td_number_at(tds, sat_sub(n, 3)),
                    leechers: td_number_at(tds, sat_sub(n, 2)),
                    upload_date: if date.len() == 0 {
                        None
                    } else {
                        Some(date)
                    },
                    source: "nyaa"@,
                    category: Some("anime"@),
                    source_url: match nyaa_href(row, "/view/"@) {
                        Some(p) => "https://nyaa.si"@ + p,
                        None => seq![],
                    },
                },
            )
        }
    }
}

/// The results of a list of table rows, in order.
pub open spec fn rows_results(rows: Seq<Seq<char>>, f: spec_fn(Seq<char>) -> Option<ResultView>) -> Seq<ResultView>
    decreases rows.len(),
{
    if rows.len() == 0 {
        seq![]
    } else {
        let p = rows_results(rows.drop_last(), f);
        match f(rows.last()) {
            Some(r) => p.push(r),
            None => p,
        }
    }
}

/// The results of a Nyaa search page, in page order.
pub open spec fn nyaa_results(h: Seq<char>) -> Seq<ResultView> {
    rows_results(split_seq(h, "<tr class=\""@).drop_first(), |row: Seq<char>| nyaa_row(row))
}

fn attr_in(html: &str, v: &Vec<char>, a: usize, b: usize, hc: &str, attr: &str) -> (r: Option<String>)
    requires
        v@ == html@,
        a <= b <= v@.len(),
    ensures
        opt_view(r) == nyaa_attr(v@.subrange(a as int, b as int), hc@, attr@),
{
    let ghost h = v@.subrange(a as int, b as int);
    let hv = chars_of(hc);
    let p = match find_seq(v, a, b, &hv) {
        None => {
            return None;
        },
        Some(p) => p,
    };
    let after = p + hv.len();
    let w = if 200 < b - after {
        200
    } else {
        b - after
    };
    let end = after + w;
    proof {
        lemma_sub_sub(v@, a as int, b as int, 0, end - a);
    }
    let av = chars_of(attr);
    let ap = match find_seq(v, a, end, &av) {
        None => {
            return None;
        },
        Some(ap) => ap,
    };
    let start = ap + av.len();
    proof {
        lemma_sub_sub(v@, a as int, end as int, start - a, end - a);
    }
    match find_char(v, start, end, '"') {
        None => None,
        Some(e) => {
            proof {
                lemma_sub_sub(v@, start as int, end as int, 0, e - start);
            }
            Some(text_of(html, v, start, e))
        },
    }
}

fn href_in(html: &str, v: &Vec<char>, a: usize, b: usize, contains: &str) -> (r: Option<String>)
    requires
        v@ == html@,
        a <= b <= v@.len(),
    ensures
        opt_view(r) == nyaa_href(v@.subrange(a as int, b as int), contains@),
{
    let cv = chars_of(contains);
    let p = match find_seq(v, a, b, &cv) {
        None => {
            return None;
        },
        Some(p) => p,
    };
    proof {
        lemma_sub_sub(v@, a as int, b as int, 0, p - a);
    }
    let hv = chars_of("href=\"");
    proof {
        reveal_strlit("href=\"");
    }
    let hp = match rfind_seq(v, a, p, &hv) {
        None => {
            return None;
        },
        Some(hp) => hp,
    };
    let start = hp + 6;
    proof {
        lemma_sub_sub(v@, a as int, b as int, start - a, b - a);
    }
    match find_char(v, start, b, '"') {
        None => None,
        Some(e) => {
            proof {
                lemma_sub_sub(v@, start as int, b as int, 0, e - start);
            }
            Some(text_of(html, v, start, e))
        },
    }
}

fn td_text_in(html: &str, v: &Vec<char>, a: usize, b: usize) -> (r: String)
    requires
        v@ == html@,
        a <= b <= v@.len(),
    ensures
        r@ == td_text(v@.subrange(a as int, b as int)),
{
    let te = match find_char(v, a, b, '>') {
        None => {
            return String::new();
        },
        Some(te) => te,
    };
    let ts = te + 1;
    proof {
        lemma_sub_sub(v@, a as int, b as int, ts - a, b - a);
    }
    let close = chars_of("</td");
    match find_seq(v, ts, b, &close) {
        None => String::new(),
        Some(c) => {
            proof {
                lemma_sub_sub(v@, ts as int, b as int, 0, c - ts);
            }
            let (x, y) = trim_range(v, ts, c);
            text_of(html, v, x, y)
        },
    }
}

fn td_number_in(v: &Vec<char>, a: usize, b: usize) -> (r: u32)
    requires
        a <= b <= v@.len(),
    ensures
        r == match u32_parse(without_commas(td_text(v@.subrange(a as int, b as int)))) {
            Ok(x) => x,
            Err(_) => 0,
        },
{
    let te = match find_char(v, a, b, '>') {
        None => {
            let e: Vec<char> = Vec::new();
            assert(without_commas(Seq::<char>::empty()) =~= e@);
            return match parse_u32_text(&e, 0, 0) {
                Ok(x) => x,
                Err(_) => 0,
            };
        },
        Some(te) => te,
    };
    let ts = te + 1;
    proof {
        lemma_sub_sub(v@, a as int, b as int, ts - a, b - a);
    }
    let close = chars_of("</td");
    let digits = match find_seq(v, ts, b, &close) {
        None => Vec::new(),
        Some(c) => {
            proof {
                lemma_sub_sub(v@, ts as int, b as int, 0, c - ts);
            }
            let (x, y) = trim_range(v, ts, c);
            strip_commas(v, x, y)
        },
    };
    proof {
        assert(without_commas(Seq::<char>::empty()) =~= Seq::<char>::empty());
        assert(digits@.subrange(0, digits@.len() as int) =~= digits@);
    }
    match parse_u32_text(&digits, 0, digits.len()) {
        Ok(x) => x,
        Err(_) => 0,
    }
}

fn magnet_in_range(html: &str, v: &Vec<char>, a: usize, b: usize) -> (r: Option<String>)
    requires
        v@ == html@,
        a <= b <= v@.len(),
    ensures
        opt_view(r) == magnet_in(v@.subrange(a as int, b as int)),
{
    let mv = chars_of("magnet:?");
    proof {
        reveal_strlit("magnet:?");
    }
    match find_seq(v, a, b, &mv) {
        None => None,
        Some(mp) => {
            proof {
                lemma_sub_sub(v@, a as int, b as int, mp - a, b - a);
            }
            let e = match find_char(v, mp, b, '"') {
                Some(e) => e,
                None => b,
            };
            proof {
                lemma_sub_sub(v@, mp as int, b as int, 0, e - mp);
            }
            Some(text_of(html, v, mp, e))
        },
    }
}

fn hash_of_opt(m: &Option<String>) -> (r: Option<String>)
    ensures
        opt_view(r) == hash_of(opt_view(*m)),
{
    match m {
        Some(s) => hash_from_magnet(s.as_str()),
        None => None,
    }
}

fn prefixed(prefix: &str, o: Option<String>) -> (r: Option<String>)
    ensures
        opt_view(r) == match opt_view(o) {
            Some(p) => Some(prefix@ + p),
            None => None,
        },
{
    match o {
        Some(p) => {
            let mut s = String::from_str(prefix);
            s.append(p.as_str());
            Some(s)
        },
        None => None,
    }
}

fn nyaa_row_in(html: &str, v: &Vec<char>, a: usize, b: usize) -> (r: Option<ScrapedResult>)
    requires
        v@ == html@,
        a <= b <= v@.len(),
    ensures
        match r {
            Some(x) => nyaa_row(v@.subrange(a as int, b as int)) == Some(x.view()),
            None => nyaa_row(v@.subrange(a as int, b as int)) is None,
        },
{
    let ghost row = v@.subrange(a as int, b as int);
    if starts_with_at(v, a, b, "table-responsive") {
        return None;
    }
    let title = match attr_in(html, v, a, b, "/view/", "title=\"") {
        Some(t) => t,
        None => String::new(),
    };
    if title.as_str().unicode_len() == 0 {
        return None;
    }
    let tdsep = chars_of("<td");
    proof {
        reveal_strlit("<td");
    }
    let tds = split_ranges(v, a, b, &tdsep);
    let ghost tdv = tds@.map_values(|p: (usize, usize)| v@.subrange(p.0 as int, p.1 as int));
    let n = tds.len();
    let magnet = magnet_in_range(html, v, a, b);
    let info_hash = hash_of_opt(&magnet);
    let i5 = if n >= 5 { n - 5 } else { 0 };
    let i4 = if n >= 4 { n - 4 } else { 0 };
    let i3 = if n >= 3 { n - 3 } else { 0 };
    let i2 = if n >= 2 { n - 2 } else { 0 };
    let size_text = if i5 < n { td_text_in(html, v, tds[i5].0, tds[i5].1) } else { String::new() };
    let date = if i4 < n { td_text_in(html, v, tds[i4].0, tds[i4].1) } else { String::new() };
    let seeders = if i3 < n {
        td_number_in(v, tds[i3].0, tds[i3].1)
    } else {
        let e: Vec<char> = Vec::new();
        assert(without_commas(Seq::<char>::empty()) =~= e@);
        match parse_u32_text(&e, 0, 0) {
            Ok(x) => x,
            Err(_) => 0,
        }
    };
    let leechers = if i2 < n {
        td_number_in(v, tds[i2].0, tds[i2].1)
    } else {
        let e: Vec<char> = Vec::new();
        assert(without_commas(Seq::<char>::empty()) =~= e@);
        match parse_u32_text(&e, 0, 0) {
            Ok(x) => x,
            Err(_) => 0,
        }
    };
    let torrent_url = prefixed("https://nyaa.si", href_in(html, v, a, b, "/download/"));
    let source_url = match prefixed("https://nyaa.si", href_in(html, v, a, b, "/view/")) {
        Some(s) => s,
        None => String::new(),
    };
    let upload_date = if date.as_str().unicode_len() == 0 {
        None
    } else {
        Some(date)
    };
    proof {
        reveal_strlit("");
        assert(Seq::<char>::empty() =~= seq![]);
        if i5 < n {
            assert(tdv[i5 as int] == v@.subrange(tds@[i5 as int].0 as int, tds@[i5 as int].1 as int));
        }
        if i4 < n {
            assert(tdv[i4 as int] == v@.subrange(tds@[i4 as int].0 as int, tds@[i4 as int].1 as int));
        }
        if i3 < n {
            assert(tdv[i3 as int] == v@.subrange(tds@[i3 as int].0 as int, tds@[i3 as int].1 as int));
        }
        if i2 < n {
            assert(tdv[i2 as int] == v@.subrange(tds@[i2 as int].0 as int, tds@[i2 as int].1 as int));
        }
    }
    Some(
        ScrapedResult {
            title,
            magnet,
            torrent_url,
            info_hash,
            size_text,
            seeders,
            leechers,
            upload_date,
            source: String::from_str("nyaa"),
            category: Some(String::from_str("anime")),
            source_url,
        },
    )
}

impl crate::search::plugins::NyaaPlugin {
    /// The value of attribute `attr` (given with its `="`), looked for from the
    /// start of `html` up to 200 characters past the first `href_contains`.
    pub fn extract_attr(html: &str, href_contains: &str, attr: &str) -> (r: Option<String>)
        ensures
            opt_view(r) == nyaa_attr(html@, href_contains@, attr@),
    {
        let v = chars_of(html);
        assert(v@.subrange(0, v@.len() as int) =~= v@);
        attr_in(html, &v, 0, v.len(), href_contains, attr)
    }

    /// The `href` of the link whose target holds `contains`.
    pub fn extract_href(html: &str, contains: &str) -> (r: Option<String>)
        ensures
            opt_view(r) == nyaa_href(html@, contains@),
    {
        let v = chars_of(html);
        assert(v@.subrange(0, v@.len() as int) =~= v@);
        href_in(html, &v, 0, v.len(), contains)
    }

    /// The trimmed text of cell piece `idx` ("" past the end).
    pub fn extract_td_text(tds: &[String], idx: usize) -> (r: String)
        ensures
            r@ == td_text_at(tds@.map_values(|t: String| t@), idx as int),
    {
        if idx >= tds.len() {
            return String::new();
        }
        let td = tds[idx].as_str();
        let v = chars_of(td);
        assert(v@.subrange(0, v@.len() as int) =~= v@);
        td_text_in(td, &v, 0, v.len())
    }

    /// The number in cell piece `idx` (commas ignored), or 0.
    pub fn extract_td_number(tds: &[String], idx: usize) -> (r: u32)
        ensures
            r == td_number_at(tds@.map_values(|t: String| t@), idx as int),
    {
        let text = Self::extract_td_text(tds, idx);
        let v = chars_of(text.as_str());
        let d = strip_commas(&v, 0, v.len());
        assert(v@.subrange(0, v@.len() as int) =~= v@);
        assert(d@.subrange(0, d@.len() as int) =~= d@);
        match parse_u32_text(&d, 0, d.len()) {
            Ok(x) => x,
            Err(_) => 0,
        }
    }

    /// Parse the result rows of a Nyaa search page, in page order.
    pub fn parse_results(html: &str) -> (r: Vec<ScrapedResult>)
        ensures
            r@.map_values(|x: ScrapedResult| x.view()) == nyaa_results(html@),
    {
        let v = chars_of(html);
        let n = v.len();
        let sep = chars_of("<tr class=\"");
        proof {
            reveal_strlit("<tr class=\"");
        }
        let rows = split_ranges(&v, 0, n, &sep);
        let ghost rv = rows@.map_values(|p: (usize, usize)| v@.subrange(p.0 as int, p.1 as int));
        let ghost all = rv.drop_first();
        assert(v@.subrange(0, n as int) =~= v@);
        let mut out: Vec<ScrapedResult> = Vec::new();
        let mut i: usize = 1;
        while i < rows.len()
            invariant
                1 <= i <= rows@.len() || (i == 1 && rows@.len() == 0),
                rv == rows@.map_values(|p: (usize, usize)| v@.subrange(p.0 as int, p.1 as int)),
                all == rv.drop_first(),
                v@ == html@,
                n == v@.len(),
                forall|k: int| 0 <= k < rows@.len() ==> 0 <= (#[trigger] rows@[k]).0 <= rows@[k].1 <= n,
                out@.map_values(|x: ScrapedResult| x.view()) == rows_results(
                    all.subrange(0, i - 1),
                    |row: Seq<char>| nyaa_row(row),
                ),
            decreases rows@.len() - i,
        {
            let (a, b) = rows[i];
            proof {
                assert(all.subrange(0, i as int).drop_last() =~= all.subrange(0, i - 1));
                assert(all.subrange(0, i as int).last() == v@.subrange(a as int, b as int));
            }
            let ghost before = out@;
            match nyaa_row_in(html, &v, a, b) {
                Some(x) => {
                    out.push(x);
                    assert(out@.map_values(|x: ScrapedResult| x.view()) =~= before.map_values(
                        |x: ScrapedResult| x.view(),
                    ).push(out@.last().view()));
                },
                None => {},
            }
            i = i + 1;
        }
        proof {
            if rows@.len() > 0 {
                assert(all.subrange(0, rows@.len() - 1) =~= all);
            } else {
                assert(all.len() == 0);
                assert(all.subrange(0, 0) =~= all);
            }
        }
        out
    }
}

// ─── TorrentGalaxy ──────────────────────────────────────────

/// The value of attribute `attr` found in the window from 200 characters
/// before to 500 characters after the first `cc`.
pub open spec fn tgx_attr(h: Seq<char>, cc: Seq<char>, attr: Seq<char>) -> Option<Seq<char>> {
    match find_first_seq(h, cc) {
        Some(cp) => {
            let ss = if cp > 200 {
                cp - 200
            } else {
                0
            };
            let se = if cp + 500 < h.len() {
                cp + 500
            } else {
                h.len() as int
            };
            let region = h.subrange(ss, se);
            let needle = attr + "=\""@;
            match find_first_seq(region, needle) {
                Some(ap) => {
                    let r2 = region.subrange(ap + needle.len(), region.len() as int);
                    match find_first(r2, '"') {
                        Some(e) => Some(r2.subrange(0, e)),
                        None => None,
                    }
                },
                None => None,
            }
        },
        None => None,
    }
}

/// The number in the element styled `color: <color>"`: its trimmed text up to
/// the next `<`, commas ignored, when it parses.
pub open spec fn tgx_colored(h: Seq<char>, color: Seq<char>) -> Option<u32> {
    let pat = "color: "@ + color + "\""@;
    match find_first_seq(h, pat) {
        Some(pos) => {
            let after = h.subrange(pos + pat.len(), h.len() as int);
            match find_first(after, '>') {
                Some(te) => {
                    let t2 = after.subrange(te + 1, after.len() as int);
                    match find_first(t2, '<') {
                        Some(e) => match u32_parse(without_commas(trim(t2.subrange(0, e)))) {
                            Ok(v) => Some(v),
                            Err(_) => None,
                        },
                        None => None,
                    }
                },
                None => None,
            }
        },
        None => None,
    }
}

/// Whether `c` may be part of a size number.
pub open spec fn is_num_char(c: char) -> bool {
    ('0' <= c && c <= '9') || c == '.'
}

/// Where the trailing run of digits and dots of `s` starts.
pub open spec fn num_suffix_start(s: Seq<char>) -> int
    decreases s.len(),
{
    if s.len() == 0 {
        0
    } else if is_num_char(s.last()) {
        num_suffix_start(s.drop_last())
    } else {
        s.len() as int
    }
}

/// The size written before the first `unit` of `h`: the digits and dots just
/// before it (spaces skipped), with the unit; `None` when there are none.
pub open spec fn size_with(h: Seq<char>, unit: Seq<char>) -> Option<Seq<char>> {
    match find_first_seq(h, unit) {
        Some(pos) => {
            let tr = crate::text::trim_end(h.subrange(0, pos));
            let num = tr.subrange(num_suffix_start(tr), tr.len() as int);
            if num.len() > 0 {
                Some(num + " "@ + unit)
            } else {
                None
            }
        },
        None => None,
    }
}

/// The size found with the first unit, in order, that gives one.
pub open spec fn size_from(h: Seq<char>, units: Seq<Seq<char>>) -> Option<Seq<char>>
    decreases units.len(),
{
    if units.len() == 0 {
        None
    } else {
        match size_with(h, units[0]) {
            Some(x) => Some(x),
            None => size_from(h, units.drop_first()),
        }
    }
}

/// The units a TorrentGalaxy size is looked for with, in order.
pub open spec fn tgx_units() -> Seq<Seq<char>> {
    seq!["GB"@, "MB"@, "KB"@, "TB"@, "GiB"@, "MiB"@]
}

/// The first magnet link of `h`, up to its closing double quote, else its
/// closing single quote, else the end.
pub open spec fn tgx_magnet(h: Seq<char>) -> Option<Seq<char>> {
    match find_first_seq(h, "magnet:?"@) {
        Some(mp) => {
            let rest = h.subrange(mp, h.len() as int);
            let e = match find_first(rest, '"') {
                Some(e) => e,
                None => match find_first(rest, '\'') {
                    Some(e) => e,
                    None => rest.len() as int,
                },
            };
            Some(rest.subrange(0, e))
        },
        None => None,
    }
}

/// The result a TorrentGalaxy row gives (the text after `tgxtablerow`), if it
/// has a title.
pub open spec fn tgx_row(row: Seq<char>) -> Option<ResultView> {
    let title = match tgx_attr(row, "txlight"@, "title"@) {
        Some(t) => t,
        None => seq![],
    };
    if title.len() == 0 {
        None
    } else {
        let magnet = tgx_magnet(row);
        Some(
            ResultView {
                title,
                magnet,
                torrent_url: None,
                info_hash: hash_of(magnet),
                size_text: match size_from(row, tgx_units()) {
                    Some(x) => x,
                    None => seq![],
                },
                seeders: match tgx_colored(row, "green"@) {
                    Some(x) => x,
                    None => 0,
                },
                leechers: match tgx_colored(row, "red"@) {
                    Some(x) => x,
                    None => 0,
                },
                upload_date: None,
                source: "torrentgalaxy"@,
                category: None,
                source_url: match tgx_attr(row, "txlight"@, "href"@) {
                    Some(p) => "https://torrentgalaxy.to"@ + p,
                    None => seq![],
                },
            },
        )
    }
}

/// The results of a TorrentGalaxy search page, in page order.
pub open spec fn tgx_results(h: Seq<char>) -> Seq<ResultView> {
    rows_results(split_seq(h, "tgxtablerow"@).drop_first(), |row: Seq<char>| tgx_row(row))
}

#[verifier::rlimit(40)]
fn tgx_attr_in(html: &str, v: &Vec<char>, a: usize, b: usize, cc: &str, attr: &str) -> (r: Option<String>)
    requires
        v@ == html@,
        a <= b <= v@.len(),
    ensures
        opt_view(r) == tgx_attr(v@.subrange(a as int, b as int), cc@, attr@),
{
    let cv = chars_of(cc);
    let cp = match find_seq(v, a, b, &cv) {
        None => {
            return None;
        },
        Some(cp) => cp,
    };
    let rel = cp - a;
    let ss = if rel > 200 {
        cp - 200
    } else {
        a
    };
    let se = if rel < b - a && b - a - rel > 500 {
        cp + 500
    } else {
        b
    };
    let ghost h = v@.subrange(a as int, b as int);
    let ghost region = v@.subrange(ss as int, se as int);
    proof {
        assert(ss - a == (if rel > 200 { rel - 200 } else { 0 }));
        assert(se - a == (if rel + 500 < h.len() { rel + 500 } else { h.len() as int }));
        lemma_sub_sub(v@, a as int, b as int, ss - a, se - a);
        assert(h.subrange(ss - a, se - a) == region);
    }
    let mut needle = String::from_str(attr);
    needle.append("=\"");
    let nv = chars_of(needle.as_str());
    let ap = match find_seq(v, ss, se, &nv) {
        None => {
            return None;
        },
        Some(ap) => ap,
    };
    let start = ap + nv.len();
    proof {
        lemma_sub_sub(v@, ss as int, se as int, start - ss, se - ss);
    }
    match find_char(v, start, se, '"') {
        None => None,
        Some(e) => {
            proof {
                lemma_sub_sub(v@, start as int, se as int, 0, e - start);
            }
            Some(text_of(html, v, start, e))
        },
    }
}

fn tgx_colored_in(v: &Vec<char>, a: usize, b: usize, color: &str) -> (r: Option<u32>)
    requires
        a <= b <= v@.len(),
    ensures
        r == tgx_colored(v@.subrange(a as int, b as int), color@),
{
    let mut pat = String::from_str("color: ");
    pat.append(color);
    pat.append("\"");
    let pv = chars_of(pat.as_str());
    let pos = match find_seq(v, a, b, &pv) {
        None => {
            return None;
        },
        Some(pos) => pos,
    };
    let after = pos + pv.len();
    proof {
        lemma_sub_sub(v@, a as int, b as int, after - a, b - a);
    }
    let te = match find_char(v, after, b, '>') {
        None => {
            return None;
        },
        Some(te) => te,
    };
    proof {
        lemma_sub_sub(v@, after as int, b as int, te + 1 - after, b - after);
    }
    match find_char(v, te + 1, b, '<') {
        None => None,
        Some(e) => {
            proof {
                lemma_sub_sub(v@, te + 1, b as int, 0, e - te - 1);
            }
            let (x, y) = trim_range(v, te + 1, e);
            let d = strip_commas(v, x, y);
            assert(d@.subrange(0, d@.len() as int) =~= d@);
            match parse_u32_text(&d, 0, d.len()) {
                Ok(n) => Some(n),
                Err(_) => None,
            }
        },
    }
}

fn size_with_in(html: &str, v: &Vec<char>, a: usize, b: usize, unit: &str) -> (r: Option<String>)
    requires
        v@ == html@,
        a <= b <= v@.len(),
    ensures
        opt_view(r) == size_with(v@.subrange(a as int, b as int), unit@),
{
    let uv = chars_of(unit);
    let pos = match find_seq(v, a, b, &uv) {
        None => {
            return None;
        },
        Some(pos) => pos,
    };
    proof {
        lemma_sub_sub(v@, a as int, b as int, 0, pos - a);
    }
    let mut e = pos;
    while e > a && crate::text::is_whitespace(v[e - 1])
        invariant
            a <= e <= pos <= v@.len(),
            crate::text::trim_end(v@.subrange(a as int, pos as int)) == crate::text::trim_end(
                v@.subrange(a as int, e as int),
            ),
        decreases e - a,
    {
        assert(v@.subrange(a as int, e as int).drop_last() =~= v@.subrange(a as int, e - 1));
        e = e - 1;
    }
    let ghost tr = v@.subrange(a as int, e as int);
    assert(crate::text::trim_end(tr) == tr);
    let mut st = e;
    while st > a && (('0' <= v[st - 1] && v[st - 1] <= '9') || v[st - 1] == '.')
        invariant
            a <= st <= e,
            e <= v@.len(),
            tr == v@.subrange(a as int, e as int),
            num_suffix_start(tr) == num_suffix_start(v@.subrange(a as int, st as int)),
        decreases st - a,
    {
        assert(v@.subrange(a as int, st as int).drop_last() =~= v@.subrange(a as int, st - 1));
        st = st - 1;
    }
    assert(num_suffix_start(v@.subrange(a as int, st as int)) == st - a);
    proof {
        lemma_sub_sub(v@, a as int, e as int, st - a, e - a);
    }
    if st == e {
        return None;
    }
    let mut out = text_of(html, v, st, e);
    out.append(" ");
    out.append(unit);
    Some(out)
}

fn tgx_magnet_in(html: &str, v: &Vec<char>, a: usize, b: usize) -> (r: Option<String>)
    requires
        v@ == html@,
        a <= b <= v@.len(),
    ensures
        opt_view(r) == tgx_magnet(v@.subrange(a as int, b as int)),
{
    let mv = chars_of("magnet:?");
    proof {
        reveal_strlit("magnet:?");
    }
    match find_seq(v, a, b, &mv) {
        None => None,
        Some(mp) => {
            proof {
                lemma_sub_sub(v@, a as int, b as int, mp - a, b - a);
            }
            let e = match find_char(v, mp, b, '"') {
                Some(e) => e,
                None => match find_char(v, mp, b, '\'') {
                    Some(e) => e,
                    None => b,
                },
            };
            proof {
                lemma_sub_sub(v@, mp as int, b as int, 0, e - mp);
            }
            Some(text_of(html, v, mp, e))
        },
    }
}

fn size_in(html: &str, v: &Vec<char>, a: usize, b: usize) -> (r: Option<String>)
    requires
        v@ == html@,
        a <= b <= v@.len(),
    ensures
        opt_view(r) == size_from(v@.subrange(a as int, b as int), tgx_units()),
{
    let ghost h = v@.subrange(a as int, b as int);
    let ghost u = tgx_units();
    proof {
        assert(u[0] == "GB"@);
        assert(u.drop_first() =~= seq!["MB"@, "KB"@, "TB"@, "GiB"@, "MiB"@]);
        assert(u.drop_first()[0] == "MB"@);
        assert(u.drop_first().drop_first() =~= seq!["KB"@, "TB"@, "GiB"@, "MiB"@]);
        assert(u.drop_first().drop_first()[0] == "KB"@);
        assert(u.drop_first().drop_first().drop_first() =~= seq!["TB"@, "GiB"@, "MiB"@]);
        assert(u.drop_first().drop_first().drop_first()[0] == "TB"@);
        assert(u.drop_first().drop_first().drop_first().drop_first() =~= seq!["GiB"@, "MiB"@]);
        assert(u.drop_first().drop_first().drop_first().drop_first()[0] == "GiB"@);
        assert(u.drop_first().drop_first().drop_first().drop_first().drop_first() =~= seq!["MiB"@]);
        assert(u.drop_first().drop_first().drop_first().drop_first().drop_first()[0] == "MiB"@);
        assert(u.drop_first().drop_first().drop_first().drop_first().drop_first().drop_first() =~= Seq::<Seq<char>>::empty());
        reveal_with_fuel(size_from, 7);
    }
    if let Some(x) = size_with_in(html, v, a, b, "GB") {
        return Some(x);
    }
    if let Some(x) = size_with_in(html, v, a, b, "MB") {
        return Some(x);
    }
    if let Some(x) = size_with_in(html, v, a, b, "KB") {
        return Some(x);
    }
    if let Some(x) = size_with_in(html, v, a, b, "TB") {
        return Some(x);
    }
    if let Some(x) = size_with_in(html, v, a, b, "GiB") {
        return Some(x);
    }
    size_with_in(html, v, a, b, "MiB")
}

fn tgx_row_in(html: &str, v: &Vec<char>, a: usize, b: usize) -> (r: Option<ScrapedResult>)
    requires
        v@ == html@,
        a <= b <= v@.len(),
    ensures
        match r {
            Some(x) => tgx_row(v@.subrange(a as int, b as int)) == Some(x.view()),
            None => tgx_row(v@.subrange(a as int, b as int)) is None,
        },
{
    let title = match tgx_attr_in(html, v, a, b, "txlight", "title") {
        Some(t) => t,
        None => String::new(),
    };
    if title.as_str().unicode_len() == 0 {
        return None;
    }
    let magnet = tgx_magnet_in(html, v, a, b);
    let info_hash = hash_of_opt(&magnet);
    let size_text = match size_in(html, v, a, b) {
        Some(x) => x,
        None => String::new(),
    };
    let seeders = match tgx_colored_in(v, a, b, "green") {
        Some(x) => x,
        None => 0,
    };
    let leechers = match tgx_colored_in(v, a, b, "red") {
        Some(x) => x,
        None => 0,
    };
    let source_url = match prefixed("https://torrentgalaxy.to", tgx_attr_in(html, v, a, b, "txlight", "href")) {
        Some(s) => s,
        None => String::new(),
    };
    proof {
        assert(Seq::<char>::empty() =~= seq![]);
    }
    Some(
        ScrapedResult {
            title,
            magnet,
            torrent_url: None,
            info_hash,
            size_text,
            seeders,
            leechers,
            upload_date: None,
            source: String::from_str("torrentgalaxy"),
            category: None,
            source_url,
        },
    )
}

impl crate::search::plugins::TorrentGalaxyPlugin {
    /// The value of attribute `attr` near the first `class_contains`.
    pub fn find_attr(html: &str, class_contains: &str, attr: &str) -> (r: Option<String>)
        ensures
            opt_view(r) == tgx_attr(html@, class_contains@, attr@),
    {
        let v = chars_of(html);
        assert(v@.subrange(0, v@.len() as int) =~= v@);
        tgx_attr_in(html, &v, 0, v.len(), class_contains, attr)
    }

    /// The number shown in the first element coloured `color`.
    pub fn find_colored_number(html: &str, color: &str) -> (r: Option<u32>)
        ensures
            r == tgx_colored(html@, color@),
    {
        let v = chars_of(html);
        assert(v@.subrange(0, v@.len() as int) =~= v@);
        tgx_colored_in(&v, 0, v.len(), color)
    }

    /// The size written on the page, with its unit, such as "1.5 GB".
    pub fn find_size(html: &str) -> (r: Option<String>)
        ensures
            opt_view(r) == size_from(html@, tgx_units()),
    {
        let v = chars_of(html);
        assert(v@.subrange(0, v@.len() as int) =~= v@);
        size_in(html, &v, 0, v.len())
    }

    /// Parse the result rows of a TorrentGalaxy search page, in page order.
    pub fn parse_results(html: &str) -> (r: Vec<ScrapedResult>)
        ensures
            r@.map_values(|x: ScrapedResult| x.view()) == tgx_results(html@),
    {
        let v = chars_of(html);
        let n = v.len();
        let sep = chars_of("tgxtablerow");
        proof {
            reveal_strlit("tgxtablerow");
        }
        let rows = split_ranges(&v, 0, n, &sep);
        let ghost rv = rows@.map_values(|p: (usize, usize)| v@.subrange(p.0 as int, p.1 as int));
        let ghost all = rv.drop_first();
        assert(v@.subrange(0, n as int) =~= v@);
        let mut out: Vec<ScrapedResult> = Vec::new();
        let mut i: usize = 1;
        while i < rows.len()
            invariant
                1 <= i <= rows@.len() || (i == 1 && rows@.len() == 0),
                rv == rows@.map_values(|p: (usize, usize)| v@.subrange(p.0 as int, p.1 as int)),
                all == rv.drop_first(),
                v@ == html@,
                n == v@.len(),
                forall|k: int| 0 <= k < rows@.len() ==> 0 <= (#[trigger] rows@[k]).0 <= rows@[k].1 <= n,
                out@.map_values(|x: ScrapedResult| x.view()) == rows_results(
                    all.subrange(0, i - 1),
                    |row: Seq<char>| tgx_row(row),
                ),
            decreases rows@.len() - i,
        {
            let (a, b) = rows[i];
            proof {
                assert(all.subrange(0, i as int).drop_last() =~= all.subrange(0, i - 1));
                assert(all.subrange(0, i as int).last() == v@.subrange(a as int, b as int));
            }
            let ghost before = out@;
            match tgx_row_in(html, &v, a, b) {
                Some(x) => {
                    out.push(x);
                    assert(out@.map_values(|x: ScrapedResult| x.view()) =~= before.map_values(
                        |x: ScrapedResult| x.view(),
                    ).push(out@.last().view()));
                },
                None => {},
            }
            i = i + 1;
        }
        proof {
            if rows@.len() > 0 {
                assert(all.subrange(0, rows@.len() - 1) =~= all);
            } else {
                assert(all.subrange(0, 0) =~= all);
            }
        }
        out
    }
}

// ─── Size texts ─────────────────────────────────────────────

/// The power of 1024 a 1337x size unit (upper-cased) stands for.
pub open spec fn leet_unit_power(u: Seq<char>) -> Option<u32> {
    if u == "B"@ {
        Some(0)
    } else if u == "KB"@ {
        Some(1)
    } else if u == "MB"@ {
        Some(2)
    } else if u == "GB"@ {
        Some(3)
    } else if u == "TB"@ {
        Some(4)
    } else {
        None
    }
}

/// The power of 1024 a Nyaa size unit (upper-cased) stands for.
pub open spec fn nyaa_unit_power(u: Seq<char>) -> Option<u32> {
    if u == "B"@ || u == "BYTES"@ {
        Some(0)
    } else if u == "KIB"@ || u == "KB"@ {
        Some(1)
    } else if u == "MIB"@ || u == "MB"@ {
        Some(2)
    } else if u == "GIB"@ || u == "GB"@ {
        Some(3)
    } else if u == "TIB"@ || u == "TB"@ {
        Some(4)
    } else {
        None
    }
}

/// The power of 1024 a TorrentGalaxy size unit (upper-cased) stands for.
pub open spec fn tgx_unit_power(u: Seq<char>) -> Option<u32> {
    if u == "KB"@ || u == "KIB"@ {
        Some(1)
    } else if u == "MB"@ || u == "MIB"@ {
        Some(2)
    } else if u == "GB"@ || u == "GIB"@ {
        Some(3)
    } else if u == "TB"@ || u == "TIB"@ {
        Some(4)
    } else {
        None
    }
}

/// The number text and unit power of a size text such as "1.5 GB": its first
/// word, and the power of 1024 its second word stands for; `None` (a size of
/// 0) with fewer than two words or an unknown unit.
pub open spec fn size_parts_spec(s: Seq<char>, table: spec_fn(Seq<char>) -> Option<u32>) -> Option<(Seq<char>, u32)> {
    let w = ws_words(s);
    if w.len() < 2 {
        None
    } else {
        match table(uppercase(w[1])) {
            Some(p) => Some((w[0], p)),
            None => None,
        }
    }
}

/// Which unit table a size text is read with.
#[derive(Debug, Clone, Copy, PartialEq, Eq, Structural)]
pub enum SizeUnits {
    Leet,
    Nyaa,
    TorrentGalaxy,
}

/// The unit table of each indexer.
pub open spec fn unit_table(t: SizeUnits) -> spec_fn(Seq<char>) -> Option<u32> {
    match t {
        SizeUnits::Leet => |u: Seq<char>| leet_unit_power(u),
        SizeUnits::Nyaa => |u: Seq<char>| nyaa_unit_power(u),
        SizeUnits::TorrentGalaxy => |u: Seq<char>| tgx_unit_power(u),
    }
}

fn unit_power(t: SizeUnits, u: &str) -> (r: Option<u32>)
    ensures
        r == (unit_table(t))(u@),
{
    let is = |lit: &str| -> (b: bool)
        ensures
            b == (u@ == lit@),
        { crate::text::same_text(u, lit) };
    match t {
        SizeUnits::Leet => if is("B") {
            Some(0)
        } else if is("KB") {
            Some(1)
        } else if is("MB") {
            Some(2)
        } else if is("GB") {
            Some(3)
        } else if is("TB") {
            Some(4)
        } else {
            None
        },
        SizeUnits::Nyaa => if is("B") || is("BYTES") {
            Some(0)
        } else if is("KIB") || is("KB") {
            Some(1)
        } else if is("MIB") || is("MB") {
            Some(2)
        } else if is("GIB") || is("GB") {
            Some(3)
        } else if is("TIB") || is("TB") {
            Some(4)
        } else {
            None
        },
        SizeUnits::TorrentGalaxy => if is("KB") || is("KIB") {
            Some(1)
        } else if is("MB") || is("MIB") {
            Some(2)
        } else if is("GB") || is("GIB") {
            Some(3)
        } else if is("TB") || is("TIB") {
            Some(4)
        } else {
            None
        },
    }
}

/// Split a size text into its number text and the power of 1024 its unit
/// stands for, with the given indexer's unit table. The caller reads the
/// number as a float and scales it.
pub fn size_parts(s: &str, units: SizeUnits) -> (r: Option<(String, u32)>)
    ensures
        match size_parts_spec(s@, unit_table(units)) {
            Some((n, p)) => r matches Some((t, q)) && t@ == n && q == p,
            None => r is None,
        },
{
    let v = chars_of(s);
    let words = word_ranges(&v);
    let ghost wv = words@.map_values(|p: (usize, usize)| v@.subrange(p.0 as int, p.1 as int));
    if words.len() < 2 {
        return None;
    }
    let (a1, b1) = words[1];
    let unit = to_uppercase(s.substring_char(a1, b1));
    proof {
        assert(wv[1] == v@.subrange(a1 as int, b1 as int));
    }
    match unit_power(units, unit.as_str()) {
        None => None,
        Some(p) => {
            let (a0, b0) = words[0];
            proof {
                assert(wv[0] == v@.subrange(a0 as int, b0 as int));
            }
            Some((String::from_str(s.substring_char(a0, b0)), p))
        },
    }
}

/// The power of 1024 a unit's first letter stands for: B(ytes) 0, K 1, M 2,
/// G 3, T 4.
pub open spec fn letter_power(c: char) -> Option<u32> {
    if c == 'B' {
        Some(0)
    } else if c == 'K' {
        Some(1)
    } else if c == 'M' {
        Some(2)
    } else if c == 'G' {
        Some(3)
    } else if c == 'T' {
        Some(4)
    } else {
        None
    }
}

/// Every unit table reads a unit by its magnitude: whatever unit it knows,
/// the power it gives is the one the unit's first letter stands for, so
/// units of distinct magnitudes get distinct powers, increasing with the
/// magnitude; and each indexer knows its documented units (1337x: B, KB, MB,
/// GB, TB; Nyaa: also BYTES and the binary KIB ... TIB; TorrentGalaxy: KB ... TB
/// and KIB ... TIB, but not bare bytes).
pub proof fn lemma_unit_power_by_magnitude(units: SizeUnits, u: Seq<char>)
    ensures
        (unit_table(units))(u) matches Some(p) ==> u.len() > 0 && letter_power(u[0]) == Some(p),
        forall|c: char| #![trigger letter_power(c)] letter_power(c) is Some && c != 'B' ==> {
            &&& leet_unit_power(seq![c, 'B']) == letter_power(c)
            &&& nyaa_unit_power(seq![c, 'B']) == letter_power(c)
            &&& nyaa_unit_power(seq![c, 'I', 'B']) == letter_power(c)
            &&& tgx_unit_power(seq![c, 'B']) == letter_power(c)
            &&& tgx_unit_power(seq![c, 'I', 'B']) == letter_power(c)
        },
        leet_unit_power(seq!['B']) == Some(0u32),
        nyaa_unit_power(seq!['B']) == Some(0u32),
        nyaa_unit_power(seq!['B', 'Y', 'T', 'E', 'S']) == Some(0u32),
        tgx_unit_power(seq!['B']) is None,
{
    reveal_strlit("B");
    reveal_strlit("BYTES");
    reveal_strlit("KB");
    reveal_strlit("MB");
    reveal_strlit("GB");
    reveal_strlit("TB");
    reveal_strlit("KIB");
    reveal_strlit("MIB");
    reveal_strlit("GIB");
    reveal_strlit("TIB");
    assert(seq!['B'] =~= "B"@);
    assert(seq!['B', 'Y', 'T', 'E', 'S'] =~= "BYTES"@);
    assert forall|c: char| #![trigger letter_power(c)] letter_power(c) is Some && c != 'B' implies {
        &&& leet_unit_power(seq![c, 'B']) == letter_power(c)
        &&& nyaa_unit_power(seq![c, 'B']) == letter_power(c)
        &&& nyaa_unit_power(seq![c, 'I', 'B']) == letter_power(c)
        &&& tgx_unit_power(seq![c, 'B']) == letter_power(c)
        &&& tgx_unit_power(seq![c, 'I', 'B']) == letter_power(c)
    } by {
        let two = seq![c, 'B'];
        let three = seq![c, 'I', 'B'];
        if c == 'K' {
            assert(two =~= "KB"@);
            assert(three =~= "KIB"@);
        } else if c == 'M' {
            assert(two =~= "MB"@);
            assert(three =~= "MIB"@);
        } else if c == 'G' {
            assert(two =~= "GB"@);
            assert(three =~= "GIB"@);
        } else {
            assert(two =~= "TB"@);
            assert(three =~= "TIB"@);
        }
    }
}

/// The power `size_parts` reports is the one the size text's unit word
/// (upper-cased) stands for by its first letter.
pub proof fn lemma_size_power_by_magnitude(s: Seq<char>, units: SizeUnits)
    ensures
        size_parts_spec(s, unit_table(units)) matches Some((n, p)) ==> ws_words(s).len() >= 2 && uppercase(
            ws_words(s)[1],
        ).len() > 0 && letter_power(uppercase(ws_words(s)[1])[0]) == Some(p),
{
    let w = ws_words(s);
    if w.len() >= 2 {
        lemma_unit_power_by_magnitude(units, uppercase(w[1]));
    }
}

} // verus!
