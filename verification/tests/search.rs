use tsubasa::search::{search_outcome, SearchEnvelope};
use tsubasa::search::search_request_url;
use tsubasa::error::TsubasaError;
use tsubasa::search::plugins::{
    all_plugins, piratebay_result, piratebay_results, plugin_info, yts_result, yts_status_ok, LeetPlugin,
    NyaaPlugin, PirateBayItem, PirateBayPlugin, PluginKind, TorrentGalaxyPlugin, YtsPlugin, YtsTorrent,
};
use tsubasa::search::{
    build_magnet, dedup_by_info_hash, merge_results, plugin_enabled, search_envelope_error, search_key_missing,
    search_result_from_raw, search_results, search_status_error, sort_by_seeders, PluginSearchResult,
    RawSearchResult, SearchCategory,
};

fn result(title: &str, hash: Option<&str>, seeders: u32) -> PluginSearchResult {
    PluginSearchResult {
        title: title.to_string(),
        magnet: None,
        torrent_url: None,
        info_hash: hash.map(|h| h.to_string()),
        size_bytes: 0,
        seeders,
        leechers: 0,
        upload_date: None,
        source: "test".to_string(),
        category: None,
        source_url: String::new(),
    }
}

fn titles(v: &[PluginSearchResult]) -> Vec<&str> {
    v.iter().map(|r| r.title.as_str()).collect()
}

#[test]
fn category_names() {
    assert_eq!(SearchCategory::All.as_str(), "all");
    assert_eq!(SearchCategory::TV.as_str(), "tv");
    assert_eq!(SearchCategory::Other.as_str(), "other");
}

#[test]
fn dedup_keeps_most_seeded_of_each_hash() {
    let mut v = vec![
        result("a", Some("ABC"), 1),
        result("b", None, 2),
        result("c", Some("abc"), 3),
        result("d", None, 4),
        result("e", Some("def"), 5),
    ];
    dedup_by_info_hash(&mut v);
    assert_eq!(titles(&v), vec!["b", "c", "d", "e"]);
    let mut tie = vec![result("x", Some("AB"), 9), result("y", Some("ab"), 9), result("z", Some("Ab"), 1)];
    dedup_by_info_hash(&mut tie);
    assert_eq!(titles(&tie), vec!["x"]);
    let mut pair = vec![result("A", Some("AB"), 1), result("B", Some("ab"), 9)];
    dedup_by_info_hash(&mut pair);
    assert_eq!(titles(&pair), vec!["B"]);
}

#[test]
fn sort_by_seeders_is_stable_descending() {
    let v = vec![result("a", None, 5), result("b", None, 9), result("c", None, 5), result("d", None, 0)];
    assert_eq!(titles(&sort_by_seeders(v)), vec!["b", "a", "c", "d"]);
}

#[test]
fn merge_joins_dedups_and_sorts() {
    let merged = merge_results(vec![
        vec![result("p1", Some("h1"), 3), result("p2", Some("h2"), 10)],
        vec![],
        vec![result("q1", Some("H1"), 50), result("q2", None, 3)],
    ]);
    assert_eq!(titles(&merged), vec!["q1", "p2", "q2"]);
}

#[test]
fn enabled_plugins_filter() {
    assert!(plugin_enabled("nyaa", &[]));
    assert!(plugin_enabled("nyaa", &["leet".to_string(), "nyaa".to_string()]));
    assert!(!plugin_enabled("yts", &["leet".to_string()]));
}

#[test]
fn search_api_status_errors() {
    assert_eq!(
        search_status_error(429, "429 Too Many Requests"),
        Some(TsubasaError::Search("Search rate limited. Please wait before searching again.".to_string()))
    );
    assert_eq!(
        search_status_error(403, "403 Forbidden"),
        Some(TsubasaError::Search("Torbox API key is invalid or expired.".to_string()))
    );
    assert_eq!(
        search_status_error(500, "500 Internal Server Error"),
        Some(TsubasaError::Search("Search API returned HTTP 500 Internal Server Error".to_string()))
    );
    assert_eq!(search_status_error(200, "200 OK"), None);
    assert_eq!(
        search_envelope_error(Some(false), None, Some("d".to_string())),
        Some(TsubasaError::Search("d".to_string()))
    );
    assert_eq!(search_envelope_error(None, Some("e".to_string()), None), None);
    assert_eq!(
        search_envelope_error(Some(false), None, None),
        Some(TsubasaError::Search("Unknown search API error".to_string()))
    );
    assert!(matches!(search_key_missing(), TsubasaError::Search(_)));
}

fn raw(name: Option<&str>, hash: Option<&str>) -> RawSearchResult {
    RawSearchResult {
        name: name.map(|s| s.to_string()),
        hash: hash.map(|s| s.to_string()),
        size: Some(10),
        seeders: None,
        leechers: Some(4),
        source: None,
        category: Some("movies".to_string()),
        magnet: None,
        cached: Some(true),
        uploaded_at: None,
    }
}

#[test]
fn raw_search_results_map() {
    let r = search_result_from_raw(&raw(Some("My Movie"), Some("ABCD"))).unwrap();
    assert_eq!(r.name, "My Movie");
    assert_eq!(r.info_hash, "abcd");
    assert_eq!(r.magnet_uri, "magnet:?xt=urn:btih:abcd&dn=My%20Movie");
    assert_eq!((r.size, r.seeders, r.leechers), (10, 0, 4));
    assert_eq!(r.source, "Unknown");
    assert_eq!(r.category, "movies");
    assert_eq!(r.cached, Some(true));
    assert!(search_result_from_raw(&raw(None, Some("ab"))).is_none());
    assert!(search_result_from_raw(&raw(Some("x"), Some(""))).is_none());
    let mut with_magnet = raw(Some("x"), Some("ab"));
    with_magnet.magnet = Some("magnet:?given".to_string());
    assert_eq!(search_result_from_raw(&with_magnet).unwrap().magnet_uri, "magnet:?given");
    let all = search_results(&[raw(Some("a"), Some("1")), raw(None, None), raw(Some("b"), Some("2"))]);
    assert_eq!(all.len(), 2);
    assert_eq!(all[1].name, "b");
}

#[test]
fn magnet_building_encodes_name() {
    assert_eq!(build_magnet("aa", "A B/C"), "magnet:?xt=urn:btih:aa&dn=A%20B%2FC");
    assert_eq!(build_magnet("aa", "plain-name_1.0~"), "magnet:?xt=urn:btih:aa&dn=plain-name_1.0~");
}

#[test]
fn plugin_identities() {
    let kinds = all_plugins();
    assert_eq!(kinds.len(), 5);
    let ids: Vec<&str> = kinds.iter().map(|k| k.id()).collect();
    assert_eq!(ids, vec!["piratebay", "yts", "leet", "nyaa", "torrentgalaxy"]);
    assert_eq!(PluginKind::Leet.name(), "1337x");
    assert_eq!(PluginKind::Yts.supported_categories(), vec![SearchCategory::Movies]);
    assert_eq!(PluginKind::Nyaa.supported_categories().len(), 5);
    let info = plugin_info();
    assert_eq!(info[3].id, "nyaa");
    assert_eq!(info[3].name, "Nyaa.si");
}

#[test]
fn plugin_category_maps() {
    assert_eq!(LeetPlugin::category_path(&SearchCategory::Software), "/category-search/{query}/Apps/{page}/");
    assert_eq!(LeetPlugin::category_path(&SearchCategory::Books), "/search/{query}/{page}/");
    assert_eq!(NyaaPlugin::category_id(&SearchCategory::Books), "3_0");
    assert_eq!(NyaaPlugin::category_id(&SearchCategory::Movies), "0_0");
    assert_eq!(TorrentGalaxyPlugin::category_id(&SearchCategory::Anime), "c28=1");
    assert_eq!(TorrentGalaxyPlugin::category_id(&SearchCategory::All), "");
    assert_eq!(PirateBayPlugin::category_code(&SearchCategory::Movies), "201,207");
    assert_eq!(PirateBayPlugin::category_code(&SearchCategory::Other), "0");
}

#[test]
fn plugin_search_urls() {
    assert_eq!(
        LeetPlugin::search_url("big buck", Some(SearchCategory::Movies), 0),
        "https://1337x.to/category-search/big%20buck/Movies/1/"
    );
    assert_eq!(LeetPlugin::search_url("x", None, 4), "https://1337x.to/search/x/5/");
    assert_eq!(
        NyaaPlugin::search_url("one piece", Some(SearchCategory::Anime), 1),
        "https://nyaa.si/?f=0&c=1_0&q=one%20piece&p=2&s=seeders&o=desc"
    );
    assert_eq!(
        TorrentGalaxyPlugin::search_url("q", None, 3),
        "https://torrentgalaxy.to/torrents.php?search=q&sort=seeders&order=desc&page=3"
    );
    assert_eq!(
        TorrentGalaxyPlugin::search_url("q", Some(SearchCategory::TV), 0),
        "https://torrentgalaxy.to/torrents.php?search=q&c3=1&sort=seeders&order=desc&page=0"
    );
    assert_eq!(PirateBayPlugin::search_url("a&b", None), "https://apibay.org/q.php?q=a%26b&cat=0");
    assert_eq!(
        YtsPlugin::search_url("up", 0),
        "https://yts.mx/api/v2/list_movies.json?query_term=up&page=1&limit=50&sort_by=seeds"
    );
}

fn pb_item(name: &str) -> PirateBayItem {
    PirateBayItem {
        id: "77".to_string(),
        name: name.to_string(),
        info_hash: "ABC".to_string(),
        leechers: "3".to_string(),
        seeders: "not a number".to_string(),
        size: "123456789012".to_string(),
        added: "1700000000".to_string(),
        category: "201".to_string(),
    }
}

#[test]
fn piratebay_records_map() {
    let r = piratebay_result(&pb_item("Film X")).unwrap();
    assert_eq!(r.title, "Film X");
    assert_eq!(r.info_hash, Some("abc".to_string()));
    assert_eq!(r.magnet, Some("magnet:?xt=urn:btih:abc&dn=Film%20X".to_string()));
    assert_eq!((r.seeders, r.leechers, r.size_bytes), (0, 3, 123_456_789_012));
    assert_eq!(r.upload_date, Some("1700000000".to_string()));
    assert_eq!(r.source, "piratebay");
    assert_eq!(r.source_url, "https://thepiratebay.org/description.php?id=77");
    assert!(piratebay_result(&pb_item("No results returned")).is_none());
    let all = piratebay_results(&[pb_item("No results returned"), pb_item("A"), pb_item("B")]);
    assert_eq!(titles(&all), vec!["A", "B"]);
}

#[test]
fn yts_records_map() {
    let t = YtsTorrent {
        url: "https://yts.mx/torrent/download/X".to_string(),
        hash: "DEAD".to_string(),
        quality: "1080p".to_string(),
        seeds: 12,
        peers: 3,
        size_bytes: 999,
        date_uploaded: "2020-01-01".to_string(),
    };
    let r = yts_result("Up", 2009, 42, &t);
    assert_eq!(r.title, "Up (2009) [1080p]");
    assert_eq!(r.magnet, Some("magnet:?xt=urn:btih:dead&dn=Up%20%282009%29%20%5B1080p%5D".to_string()));
    assert_eq!(r.torrent_url, Some("https://yts.mx/torrent/download/X".to_string()));
    assert_eq!(r.category, Some("movies".to_string()));
    assert_eq!(r.source_url, "https://yts.mx/movies/42");
    assert!(yts_status_ok("ok"));
    assert!(!yts_status_ok("error"));
}

#[test]
fn search_request_url_encodes_query() {
    assert_eq!(
        search_request_url("ubuntu 22.04", true),
        "https://search-api.torbox.app/torrents/search/ubuntu%2022.04?metadata=false&check_cache=true&check_owned=false"
    );
    assert_eq!(
        search_request_url("abc", false),
        "https://search-api.torbox.app/torrents/search/abc?metadata=false&check_cache=false&check_owned=false"
    );
}

#[test]
fn search_outcome_composes_the_steps() {
    let env = |success, torrents| SearchEnvelope { success, error: None, detail: None, torrents };
    match search_outcome(false, 200, "200 OK", Ok(env(Some(true), vec![]))) {
        Err(TsubasaError::Search(m)) => assert!(m.starts_with("Torbox API key is not configured")),
        _ => panic!("expected the missing key"),
    }
    match search_outcome(true, 429, "429", Ok(env(Some(true), vec![]))) {
        Err(TsubasaError::Search(m)) => assert_eq!(m, "Search rate limited. Please wait before searching again."),
        _ => panic!("expected the rate limit"),
    }
    match search_outcome(true, 200, "200 OK", Err("eof".to_string())) {
        Err(TsubasaError::Search(m)) => assert_eq!(m, "Failed to parse search response: eof"),
        _ => panic!("expected the parse error"),
    }
    match search_outcome(true, 200, "200 OK", Ok(env(Some(false), vec![]))) {
        Err(TsubasaError::Search(m)) => assert_eq!(m, "Unknown search API error"),
        _ => panic!("expected the envelope error"),
    }
    let got = search_outcome(true, 200, "200 OK", Ok(env(None, vec![raw(Some("A"), Some("AB")), raw(None, Some("cd"))])));
    match got {
        Ok(v) => {
            assert_eq!(v.len(), 1);
            assert_eq!(v[0].info_hash, "ab");
        }
        Err(_) => panic!("expected results"),
    }
}
