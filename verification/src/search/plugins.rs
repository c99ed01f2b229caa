//! The built-in indexers: their identities, categories, query URLs, and the
//! mapping of the JSON indexers' records to search results.

use vstd::prelude::*;

use crate::ip_filter::blocklist::{parse_u32_text, parse_u64_text, u32_parse, u64_parse};
use crate::magnet::{url_encode, url_encoded};
use crate::search::{build_magnet, built_magnet, category_name, PluginInfo, PluginSearchResult, SearchCategory};
use crate::text::{chars_of, decimal_string, decimal_text, lowercase, same_text, to_lowercase};

verus! {

/// The Pirate Bay, through the apibay.org JSON API.
pub struct PirateBayPlugin;

/// YTS, through the yts.mx JSON API (movies only).
pub struct YtsPlugin;

/// 1337x, scraped from its HTML pages.
pub struct LeetPlugin;

/// Nyaa.si, scraped from its HTML pages.
pub struct NyaaPlugin;

/// TorrentGalaxy, scraped from its HTML pages.
pub struct TorrentGalaxyPlugin;

/// One of the built-in indexers.
#[derive(Debug, Clone, Copy, PartialEq, Eq, Structural)]
pub enum PluginKind {
    PirateBay,
    Yts,
    Leet,
    Nyaa,
    TorrentGalaxy,
}

/// The built-in indexers, in search order.
pub fn all_plugins() -> (r: Vec<PluginKind>)
    ensures
        r@ == seq![
            PluginKind::PirateBay,
            PluginKind::Yts,
            PluginKind::Leet,
            PluginKind::Nyaa,
            PluginKind::TorrentGalaxy,
        ],
{
    let mut r: Vec<PluginKind> = Vec::new();
    r.push(PluginKind::PirateBay);
    r.push(PluginKind::Yts);
    r.push(PluginKind::Leet);
    r.push(PluginKind::Nyaa);
    r.push(PluginKind::TorrentGalaxy);
    proof {
        assert(r@ =~= seq![
            PluginKind::PirateBay,
            PluginKind::Yts,
            PluginKind::Leet,
            PluginKind::Nyaa,
            PluginKind::TorrentGalaxy,
        ]);
    }
    r
}

/// The identifier of an indexer.
pub open spec fn plugin_id(k: PluginKind) -> Seq<char> {
    match k {
        PluginKind::PirateBay => "piratebay"@,
        PluginKind::Yts => "yts"@,
        PluginKind::Leet => "leet"@,
        PluginKind::Nyaa => "nyaa"@,
        PluginKind::TorrentGalaxy => "torrentgalaxy"@,
    }
}

/// The display name of an indexer.
pub open spec fn plugin_name(k: PluginKind) -> Seq<char> {
    match k {
        PluginKind::PirateBay => "The Pirate Bay"@,
        PluginKind::Yts => "YTS"@,
        PluginKind::Leet => "1337x"@,
        PluginKind::Nyaa => "Nyaa.si"@,
        PluginKind::TorrentGalaxy => "TorrentGalaxy"@,
    }
}

/// The categories an indexer supports.
pub open spec fn plugin_categories(k: PluginKind) -> Seq<SearchCategory> {
    match k {
        PluginKind::PirateBay => seq![
            SearchCategory::All,
            SearchCategory::Movies,
            SearchCategory::TV,
            SearchCategory::Music,
            SearchCategory::Games,
            SearchCategory::Software,
            SearchCategory::Anime,
            SearchCategory::Books,
        ],
        PluginKind::Yts => seq![SearchCategory::Movies],
        PluginKind::Leet => seq![
            SearchCategory::All,
            SearchCategory::Movies,
            SearchCategory::TV,
            SearchCategory::Music,
            SearchCategory::Games,
            SearchCategory::Software,
            SearchCategory::Anime,
        ],
        PluginKind::Nyaa => seq![
            SearchCategory::All,
            SearchCategory::Anime,
            SearchCategory::Music,
            SearchCategory::Books,
            SearchCategory::Software,
        ],
        PluginKind::TorrentGalaxy => seq![
            SearchCategory::All,
            SearchCategory::Movies,
            SearchCategory::TV,
            SearchCategory::Music,
            SearchCategory::Games,
            SearchCategory::Software,
            SearchCategory::Anime,
            SearchCategory::Books,
        ],
    }
}

fn categories_from(cs: &[SearchCategory]) -> (r: Vec<SearchCategory>)
    ensures
        r@ == cs@,
{
    let mut r: Vec<SearchCategory> = Vec::new();
    let mut i: usize = 0;
    while i < cs.len()
        invariant
            i <= cs@.len(),
            r@ == cs@.subrange(0, i as int),
        decreases cs@.len() - i,
    {
        r.push(cs[i]);
        assert(r@ =~= cs@.subrange(0, i + 1));
        i = i + 1;
    }
    assert(cs@.subrange(0, cs@.len() as int) =~= cs@);
    r
}

impl PluginKind {
    /// The identifier of the indexer.
    pub fn id(&self) -> (r: &'static str)
        ensures
            r@ == plugin_id(*self),
    {
        match self {
            PluginKind::PirateBay => "piratebay",
            PluginKind::Yts => "yts",
            PluginKind::Leet => "leet",
            PluginKind::Nyaa => "nyaa",
            PluginKind::TorrentGalaxy => "torrentgalaxy",
        }
    }

    /// The display name of the indexer.
    pub fn name(&self) -> (r: &'static str)
        ensures
            r@ == plugin_name(*self),
    {
        match self {
            PluginKind::PirateBay => "The Pirate Bay",
            PluginKind::Yts => "YTS",
            PluginKind::Leet => "1337x",
            PluginKind::Nyaa => "Nyaa.si",
            PluginKind::TorrentGalaxy => "TorrentGalaxy",
        }
    }

    /// The categories the indexer supports.
    pub fn supported_categories(&self) -> (r: Vec<SearchCategory>)
        ensures
            r@ == plugin_categories(*self),
    {
        match self {
            PluginKind::PirateBay => {
                let cs = [
                    SearchCategory::All,
                    SearchCategory::Movies,
                    SearchCategory::TV,
                    SearchCategory::Music,
                    SearchCategory::Games,
                    SearchCategory::Software,
                    SearchCategory::Anime,
                    SearchCategory::Books,
                ];
                let r = categories_from(&cs);
                assert(r@ =~= plugin_categories(*self));
                r
            },
            PluginKind::Yts => {
                let cs = [SearchCategory::Movies];
                let r = categories_from(&cs);
                assert(r@ =~= plugin_categories(*self));
                r
            },
            PluginKind::Leet => {
                let cs = [
                    SearchCategory::All,
                    SearchCategory::Movies,
                    SearchCategory::TV,
                    SearchCategory::Music,
                    SearchCategory::Games,
                    SearchCategory::Software,
                    SearchCategory::Anime,
                ];
                let r = categories_from(&cs);
                assert(r@ =~= plugin_categories(*self));
                r
            },
            PluginKind::Nyaa => {
                let cs = [
                    SearchCategory::All,
                    SearchCategory::Anime,
                    SearchCategory::Music,
                    SearchCategory::Books,
                    SearchCategory::Software,
                ];
                let r = categories_from(&cs);
                assert(r@ =~= plugin_categories(*self));
                r
            },
            PluginKind::TorrentGalaxy => {
                let cs = [
                    SearchCategory::All,
                    SearchCategory::Movies,
                    SearchCategory::TV,
                    SearchCategory::Music,
                    SearchCategory::Games,
                    SearchCategory::Software,
                    SearchCategory::Anime,
                    SearchCategory::Books,
                ];
                let r = categories_from(&cs);
                assert(r@ =~= plugin_categories(*self));
                r
            },
        }
    }

    /// The indexer's metadata for the frontend.
    pub fn info(&self) -> (r: PluginInfo)
        ensures
            r.id@ == plugin_id(*self),
            r.name@ == plugin_name(*self),
            r.categories@ == plugin_categories(*self),
    {
        PluginInfo {
            id: String::from_str(self.id()),
            name: String::from_str(self.name()),
            categories: self.supported_categories(),
        }
    }
}

/// The metadata of every built-in indexer, in search order.
pub fn plugin_info() -> (r: Vec<PluginInfo>)
    ensures
        r@.len() == 5,
        forall|i: int| 0 <= i < 5 ==> (#[trigger] r@[i]).id@ == plugin_id(
            seq![
                PluginKind::PirateBay,
                PluginKind::Yts,
                PluginKind::Leet,
                PluginKind::Nyaa,
                PluginKind::TorrentGalaxy,
            ][i],
        ),
{
    let kinds = all_plugins();
    let mut r: Vec<PluginInfo> = Vec::new();
    let mut i: usize = 0;
    while i < kinds.len()
        invariant
            i <= kinds@.len(),
            kinds@ == seq![
                PluginKind::PirateBay,
                PluginKind::Yts,
                PluginKind::Leet,
                PluginKind::Nyaa,
                PluginKind::TorrentGalaxy,
            ],
            r@.len() == i,
            forall|j: int| 0 <= j < i ==> (#[trigger] r@[j]).id@ == plugin_id(kinds@[j]),
        decreases kinds@.len() - i,
    {
        r.push(kinds[i].info());
        i = i + 1;
    }
    r
}

// ─── Query URLs ─────────────────────────────────────────────

/// The category the search runs in: the one asked for, else all.
pub open spec fn chosen(category: Option<SearchCategory>) -> SearchCategory {
    match category {
        Some(c) => c,
        None => SearchCategory::All,
    }
}

/// The 1337x path template of a category.
pub open spec fn leet_category_path(c: SearchCategory) -> Seq<char> {
    match c {
        SearchCategory::Movies => "/category-search/{query}/Movies/{page}/"@,
        SearchCategory::TV => "/category-search/{query}/TV/{page}/"@,
        SearchCategory::Music => "/category-search/{query}/Music/{page}/"@,
        SearchCategory::Games => "/category-search/{query}/Games/{page}/"@,
        SearchCategory::Software => "/category-search/{query}/Apps/{page}/"@,
        SearchCategory::Anime => "/category-search/{query}/Anime/{page}/"@,
        _ => "/search/{query}/{page}/"@,
    }
}

/// The 1337x path section of a category, between query and page ("" for a
/// plain search).
pub open spec fn leet_section(c: SearchCategory) -> Option<Seq<char>> {
    match c {
        SearchCategory::Movies => Some("Movies"@),
        SearchCategory::TV => Some("TV"@),
        SearchCategory::Music => Some("Music"@),
        SearchCategory::Games => Some("Games"@),
        SearchCategory::Software => Some("Apps"@),
        SearchCategory::Anime => Some("Anime"@),
        _ => None,
    }
}

/// The 1337x search URL: the category's path with the encoded query and the
/// one-based page filled in.
pub open spec fn leet_url(query: Seq<char>, c: SearchCategory, page: u32) -> Seq<char> {
    let q = url_encoded(query);
    let p = decimal_text(page as nat + 1);
    match leet_section(c) {
        Some(sec) => "https://1337x.to/category-search/"@ + q + "/"@ + sec + "/"@ + p + "/"@,
        None => "https://1337x.to/search/"@ + q + "/"@ + p + "/"@,
    }
}

impl LeetPlugin {
    /// The path template of a category.
    pub fn category_path(cat: &SearchCategory) -> (r: &'static str)
        ensures
            r@ == leet_category_path(*cat),
    {
        match cat {
            SearchCategory::Movies => "/category-search/{query}/Movies/{page}/",
            SearchCategory::TV => "/category-search/{query}/TV/{page}/",
            SearchCategory::Music => "/category-search/{query}/Music/{page}/",
            SearchCategory::Games => "/category-search/{query}/Games/{page}/",
            SearchCategory::Software => "/category-search/{query}/Apps/{page}/",
            SearchCategory::Anime => "/category-search/{query}/Anime/{page}/",
            _ => "/search/{query}/{page}/",
        }
    }

    fn section(cat: &SearchCategory) -> (r: Option<&'static str>)
        ensures
            match r {
                Some(s) => leet_section(*cat) == Some(s@),
                None => leet_section(*cat) is None,
            },
    {
        match cat {
            SearchCategory::Movies => Some("Movies"),
            SearchCategory::TV => Some("TV"),
            SearchCategory::Music => Some("Music"),
            SearchCategory::Games => Some("Games"),
            SearchCategory::Software => Some("Apps"),
            SearchCategory::Anime => Some("Anime"),
            _ => None,
        }
    }

    /// The search URL for a query, category and zero-based page.
    pub fn search_url(query: &str, category: Option<SearchCategory>, page: u32) -> (r: String)
        requires
            page < u32::MAX,
        ensures
            r@ == leet_url(query@, chosen(category), page),
    {
        let cat = match category {
            Some(c) => c,
            None => SearchCategory::All,
        };
        let q = url_encode(query);
        let p = decimal_string((page + 1) as u64);
        match Self::section(&cat) {
            Some(sec) => {
                let mut u = String::from_str("https://1337x.to/category-search/");
                u.append(q.as_str());
                u.append("/");
                u.append(sec);
                u.append("/");
                u.append(p.as_str());
                u.append("/");
                u
            },
            None => {
                let mut u = String::from_str("https://1337x.to/search/");
                u.append(q.as_str());
                u.append("/");
                u.append(p.as_str());
                u.append("/");
                u
            },
        }
    }
}

/// The Nyaa category id of a category.
pub open spec fn nyaa_category_id(c: SearchCategory) -> Seq<char> {
    match c {
        SearchCategory::Anime => "1_0"@,
        SearchCategory::Music => "2_0"@,
        SearchCategory::Books => "3_0"@,
        SearchCategory::Software => "6_0"@,
        _ => "0_0"@,
    }
}

impl NyaaPlugin {
    /// The Nyaa category id of a category.
    pub fn category_id(cat: &SearchCategory) -> (r: &'static str)
        ensures
            r@ == nyaa_category_id(*cat),
    {
        match cat {
            SearchCategory::Anime => "1_0",
            SearchCategory::Music => "2_0",
            SearchCategory::Books => "3_0",
            SearchCategory::Software => "6_0",
            _ => "0_0",
        }
    }

    /// The search URL for a query, category and zero-based page, sorted by
    /// seeders.
    pub fn search_url(query: &str, category: Option<SearchCategory>, page: u32) -> (r: String)
        requires
            page < u32::MAX,
        ensures
            r@ == "https://nyaa.si/?f=0&c="@ + nyaa_category_id(chosen(category)) + "&q="@ + url_encoded(
                query@,
            ) + "&p="@ + decimal_text(page as nat + 1) + "&s=seeders&o=desc"@,
    {
        let cat = match category {
            Some(c) => c,
            None => SearchCategory::All,
        };
        let mut u = String::from_str("https://nyaa.si/?f=0&c=");
        u.append(Self::category_id(&cat));
        u.append("&q=");
        u.append(url_encode(query).as_str());
        u.append("&p=");
        u.append(decimal_string((page + 1) as u64).as_str());
        u.append("&s=seeders&o=desc");
        u
    }
}

/// The TorrentGalaxy category parameter of a category ("" for all).
pub open spec fn tgx_category_id(c: SearchCategory) -> Seq<char> {
    match c {
        SearchCategory::Movies => "c1=1"@,
        SearchCategory::TV => "c3=1"@,
        SearchCategory::Music => "c22=1"@,
        SearchCategory::Games => "c10=1"@,
        SearchCategory::Software => "c18=1"@,
        SearchCategory::Anime => "c28=1"@,
        SearchCategory::Books => "c13=1"@,
        _ => ""@,
    }
}

impl TorrentGalaxyPlugin {
    /// The category parameter of a category ("" for all).
    pub fn category_id(cat: &SearchCategory) -> (r: &'static str)
        ensures
            r@ == tgx_category_id(*cat),
    {
        match cat {
            SearchCategory::Movies => "c1=1",
            SearchCategory::TV => "c3=1",
            SearchCategory::Music => "c22=1",
            SearchCategory::Games => "c10=1",
            SearchCategory::Software => "c18=1",
            SearchCategory::Anime => "c28=1",
            SearchCategory::Books => "c13=1",
            _ => "",
        }
    }

    /// The search URL for a query, category and page (TorrentGalaxy pages
    /// count from zero), sorted by seeders.
    pub fn search_url(query: &str, category: Option<SearchCategory>, page: u32) -> (r: String)
        ensures
            r@ == "https://torrentgalaxy.to/torrents.php?search="@ + url_encoded(query@) + (if tgx_category_id(
                chosen(category),
            ).len() == 0 {
                Seq::<char>::empty()
            } else {
                "&"@ + tgx_category_id(chosen(category))
            }) + "&sort=seeders&order=desc&page="@ + decimal_text(page as nat),
    {
        let cat = match category {
            Some(c) => c,
            None => SearchCategory::All,
        };
        let param = Self::category_id(&cat);
        let mut u = String::from_str("https://torrentgalaxy.to/torrents.php?search=");
        u.append(url_encode(query).as_str());
        if param.unicode_len() > 0 {
            u.append("&");
            u.append(param);
        } else {
            proof {
                assert(u@ + Seq::<char>::empty() =~= u@);
            }
        }
        u.append("&sort=seeders&order=desc&page=");
        u.append(decimal_string(page as u64).as_str());
        u
    }
}

/// The Pirate Bay category codes of a category.
pub open spec fn piratebay_category_code(c: SearchCategory) -> Seq<char> {
    match c {
        SearchCategory::Movies => "201,207"@,
        SearchCategory::TV => "205,208"@,
        SearchCategory::Music => "101"@,
        SearchCategory::Games => "400"@,
        SearchCategory::Software => "300"@,
        SearchCategory::Anime => "205"@,
        SearchCategory::Books => "601"@,
        _ => "0"@,
    }
}

impl PirateBayPlugin {
    /// The category codes of a category.
    pub fn category_code(cat: &SearchCategory) -> (r: &'static str)
        ensures
            r@ == piratebay_category_code(*cat),
    {
        match cat {
            SearchCategory::Movies => "201,207",
            SearchCategory::TV => "205,208",
            SearchCategory::Music => "101",
            SearchCategory::Games => "400",
            SearchCategory::Software => "300",
            SearchCategory::Anime => "205",
            SearchCategory::Books => "601",
            _ => "0",
        }
    }

    /// The query URL for a query and category.
    pub fn search_url(query: &str, category: Option<SearchCategory>) -> (r: String)
        ensures
            r@ == "https://apibay.org/q.php?q="@ + url_encoded(query@) + "&cat="@ + piratebay_category_code(
                chosen(category),
            ),
    {
        let cat = match category {
            Some(c) => c,
            None => SearchCategory::All,
        };
        let mut u = String::from_str("https://apibay.org/q.php?q=");
        u.append(url_encode(query).as_str());
        u.append("&cat=");
        u.append(Self::category_code(&cat));
        u
    }
}

impl YtsPlugin {
    /// The query URL for a query and zero-based page, sorted by seeds.
    pub fn search_url(query: &str, page: u32) -> (r: String)
        requires
            page < u32::MAX,
        ensures
            r@ == "https://yts.mx/api/v2/list_movies.json?query_term="@ + url_encoded(query@) + "&page="@
                + decimal_text(page as nat + 1) + "&limit=50&sort_by=seeds"@,
    {
        let mut u = String::from_str("https://yts.mx/api/v2/list_movies.json?query_term=");
        u.append(url_encode(query).as_str());
        u.append("&page=");
        u.append(decimal_string((page + 1) as u64).as_str());
        u.append("&limit=50&sort_by=seeds");
        u
    }
}

// ─── JSON indexers' records ─────────────────────────────────

/// One record of the apibay.org API (every value is text).
#[derive(Debug, Clone)]
pub struct PirateBayItem {
    pub id: String,
    pub name: String,
    pub info_hash: String,
    pub leechers: String,
    pub seeders: String,
    pub size: String,
    pub added: String,
    pub category: String,
}

/// A number parsed from text, or 0 where it does not parse.
pub open spec fn u32_or_zero(s: Seq<char>) -> u32 {
    match u32_parse(s) {
        Ok(v) => v,
        Err(_) => 0,
    }
}

/// A number parsed from text, or 0 where it does not parse.
pub open spec fn u64_or_zero(s: Seq<char>) -> u64 {
    match u64_parse(s) {
        Ok(v) => v,
        Err(_) => 0,
    }
}

fn parse_u32_or_zero(s: &str) -> (r: u32)
    ensures
        r == u32_or_zero(s@),
{
    let v = chars_of(s);
    assert(v@.subrange(0, v@.len() as int) =~= v@);
    match parse_u32_text(&v, 0, v.len()) {
        Ok(n) => n,
        Err(_) => 0,
    }
}

fn parse_u64_or_zero(s: &str) -> (r: u64)
    ensures
        r == u64_or_zero(s@),
{
    let v = chars_of(s);
    assert(v@.subrange(0, v@.len() as int) =~= v@);
    match parse_u64_text(&v, 0, v.len()) {
        Ok(n) => n,
        Err(_) => 0,
    }
}

/// The search result an apibay record gives.
pub open spec fn piratebay_result_of(r: PluginSearchResult, item: PirateBayItem) -> bool {
    let hash = lowercase(item.info_hash@);
    &&& r.title == item.name
    &&& r.magnet matches Some(m) && m@ == built_magnet(hash, item.name@)
    &&& r.torrent_url is None
    &&& r.info_hash matches Some(h) && h@ == hash
    &&& r.size_bytes == u64_or_zero(item.size@)
    &&& r.seeders == u32_or_zero(item.seeders@)
    &&& r.leechers == u32_or_zero(item.leechers@)
    &&& r.upload_date == Some(item.added)
    &&& r.source@ == "piratebay"@
    &&& r.category == Some(item.category)
    &&& r.source_url@ == "https://thepiratebay.org/description.php?id="@ + item.id@
}

/// Whether an apibay record is a real result (the API answers an empty search
/// with a placeholder record).
pub open spec fn piratebay_kept(item: PirateBayItem) -> bool {
    item.name@ != "No results returned"@
}

/// The search result an apibay record gives; `None` for the placeholder record.
pub fn piratebay_result(item: &PirateBayItem) -> (r: Option<PluginSearchResult>)
    ensures
        !piratebay_kept(*item) ==> r is None,
        piratebay_kept(*item) ==> (r matches Some(x) && piratebay_result_of(x, *item)),
{
    if same_text(item.name.as_str(), "No results returned") {
        return None;
    }
    let info_hash = to_lowercase(item.info_hash.as_str());
    let magnet = build_magnet(info_hash.as_str(), item.name.as_str());
    let mut source_url = String::from_str("https://thepiratebay.org/description.php?id=");
    source_url.append(item.id.as_str());
    Some(
        PluginSearchResult {
            title: item.name.clone(),
            magnet: Some(magnet),
            torrent_url: None,
            info_hash: Some(info_hash),
            size_bytes: parse_u64_or_zero(item.size.as_str()),
            seeders: parse_u32_or_zero(item.seeders.as_str()),
            leechers: parse_u32_or_zero(item.leechers.as_str()),
            upload_date: Some(item.added.clone()),
            source: String::from_str("piratebay"),
            category: Some(item.category.clone()),
            source_url,
        },
    )
}

/// The records that are real results, in order.
pub open spec fn piratebay_kept_items(items: Seq<PirateBayItem>) -> Seq<PirateBayItem>
    decreases items.len(),
{
    if items.len() == 0 {
        seq![]
    } else {
        let p = piratebay_kept_items(items.drop_last());
        if piratebay_kept(items.last()) {
            p.push(items.last())
        } else {
            p
        }
    }
}

/// The search results of an apibay reply: one per real record, in order.
pub fn piratebay_results(items: &[PirateBayItem]) -> (r: Vec<PluginSearchResult>)
    ensures
        r@.len() == piratebay_kept_items(items@).len(),
        forall|k: int| 0 <= k < r@.len() ==> piratebay_result_of(#[trigger] r@[k], piratebay_kept_items(items@)[k]),
{
    let ghost all = items@;
    let mut out: Vec<PluginSearchResult> = Vec::new();
    let mut i: usize = 0;
    while i < items.len()
        invariant
            i <= all.len(),
            all == items@,
            out@.len() == piratebay_kept_items(all.subrange(0, i as int)).len(),
            forall|k: int|
                0 <= k < out@.len() ==> piratebay_result_of(
                    #[trigger] out@[k],
                    piratebay_kept_items(all.subrange(0, i as int))[k],
                ),
        decreases all.len() - i,
    {
        proof {
            assert(all.subrange(0, i + 1).drop_last() =~= all.subrange(0, i as int));
            assert(all.subrange(0, i + 1).last() == all[i as int]);
        }
        let ghost old_out = out@;
        match piratebay_result(&items[i]) {
            Some(x) => out.push(x),
            None => {},
        }
        proof {
            assert forall|k: int| 0 <= k < out@.len() implies piratebay_result_of(
                #[trigger] out@[k],
                piratebay_kept_items(all.subrange(0, i + 1))[k],
            ) by {
                if k < old_out.len() {
                    assert(out@[k] == old_out[k]);
                }
            }
        }
        i = i + 1;
    }
    assert(all.subrange(0, all.len() as int) =~= all);
    out
}

/// One torrent of a YTS movie.
#[derive(Debug, Clone)]
pub struct YtsTorrent {
    pub url: String,
    pub hash: String,
    pub quality: String,
    pub seeds: u32,
    pub peers: u32,
    pub size_bytes: u64,
    pub date_uploaded: String,
}

/// The title YTS results carry: "Title (Year) [Quality]".
pub open spec fn yts_title(title: Seq<char>, year: u32, quality: Seq<char>) -> Seq<char> {
    title + " ("@ + decimal_text(year as nat) + ") ["@ + quality + "]"@
}

/// The search result one torrent of a YTS movie gives.
pub fn yts_result(movie_title: &str, movie_year: u32, movie_id: u64, t: &YtsTorrent) -> (r: PluginSearchResult)
    ensures
        r.title@ == yts_title(movie_title@, movie_year, t.quality@),
        r.magnet matches Some(m) && m@ == built_magnet(lowercase(t.hash@), r.title@),
        r.torrent_url == Some(t.url),
        r.info_hash matches Some(h) && h@ == lowercase(t.hash@),
        r.size_bytes == t.size_bytes,
        r.seeders == t.seeds,
        r.leechers == t.peers,
        r.upload_date == Some(t.date_uploaded),
        r.source@ == "yts"@,
        r.category matches Some(c) && c@ == "movies"@,
        r.source_url@ == "https://yts.mx/movies/"@ + decimal_text(movie_id as nat),
{
    let info_hash = to_lowercase(t.hash.as_str());
    let mut title = String::from_str(movie_title);
    title.append(" (");
    title.append(decimal_string(movie_year as u64).as_str());
    title.append(") [");
    title.append(t.quality.as_str());
    title.append("]");
    let magnet = build_magnet(info_hash.as_str(), title.as_str());
    let mut source_url = String::from_str("https://yts.mx/movies/");
    source_url.append(decimal_string(movie_id).as_str());
    PluginSearchResult {
        title,
        magnet: Some(magnet),
        torrent_url: Some(t.url.clone()),
        info_hash: Some(info_hash),
        size_bytes: t.size_bytes,
        seeders: t.seeds,
        leechers: t.peers,
        upload_date: Some(t.date_uploaded.clone()),
        source: String::from_str("yts"),
        category: Some(String::from_str("movies")),
        source_url,
    }
}

/// Whether a YTS reply status is a success ("ok").
pub fn yts_status_ok(status: &str) -> (r: bool)
    ensures
        r == (status@ == "ok"@),
{
    same_text(status, "ok")
}

} // verus!
