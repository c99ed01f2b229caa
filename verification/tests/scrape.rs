use tsubasa::search::plugins::{LeetPlugin, NyaaPlugin, TorrentGalaxyPlugin};
use tsubasa::search::scrape::{hash_from_magnet, size_parts, SizeUnits};

const LEET_PAGE: &str = "<table><tr><td class=\"coll-1 name\"><a href=\"/sub/1/\" class=\"icon\"><i></i></a>\
    <a href=\"/torrent/123/Some-Movie/\">Some Movie 2020</a></td>\
    <td class=\"coll-2 seeds\">1,234</td><td class=\"coll-3 leeches\">56</td>\
    <td class=\"coll-date\">Jan</td><td class=\"coll-4 size mob-uploader\">1.5 GB<span class=\"seeds\">1</span></td></tr>\
    <tr><td class=\"coll-1 name\"><a href=\"/torrent/9/x/\"><b>bold</b></a>\
    <a href=\"/torrent/456/Other/\"> Other Thing </a></td>\
    <td class=\"coll-2 seeds\">7</td><td class=\"coll-3 leeches\">8</td><td class=\"coll-4 size\"> 700 MB </td></tr></table>";

#[test]
fn leet_rows() {
    let rows = LeetPlugin::parse_search_results(LEET_PAGE);
    assert_eq!(rows.len(), 2);
    assert_eq!(rows[0].title, "Some Movie 2020");
    assert_eq!(rows[0].detail_path, "/torrent/123/Some-Movie/");
    assert_eq!((rows[0].seeders, rows[0].leechers), (0, 56));
    assert_eq!(rows[0].size, "1.5 GB");
    assert_eq!(rows[1].title, "Other Thing");
    assert_eq!(rows[1].detail_path, "/torrent/456/Other/");
    assert_eq!((rows[1].seeders, rows[1].leechers), (7, 8));
    assert_eq!(rows[1].size, "700 MB");
    assert_eq!(rows[1].upload_date, None);
}

#[test]
fn leet_empty_page() {
    assert!(LeetPlugin::parse_search_results("<html>nothing</html>").is_empty());
}

#[test]
fn leet_between_markers() {
    assert_eq!(LeetPlugin::extract_between("a[b]c[d]", "[", "]"), Some("b".to_string()));
    assert_eq!(LeetPlugin::extract_between("a[b", "[", "]"), None);
    assert_eq!(LeetPlugin::extract_between("ab", "[", "]"), None);
}

#[test]
fn scraped_magnet_hashes() {
    assert_eq!(hash_from_magnet("magnet:?xt=urn:btih:ABCdef&dn=x"), Some("abcdef".to_string()));
    assert_eq!(hash_from_magnet("magnet:?xt=urn:btih:ZZ"), Some("zz".to_string()));
    assert_eq!(hash_from_magnet("magnet:?dn=x"), None);
}

const NYAA_PAGE: &str = "<table><thead><tr class=\"table-responsive\"><th>x</th></tr></thead><tbody>\
    <tr class=\"default\"><td><a href=\"/?c=1_2\" title=\"Anime - English-translated\">cat</a></td>\
    <td colspan=\"2\"><a href=\"/view/1234\" title=\"[Sub] Show - 01\">[Sub] Show - 01</a></td>\
    <td class=\"text-center\"><a href=\"/download/1234.torrent\"><i class=\"fa\"></i></a>\
    <a href=\"magnet:?xt=urn:btih:ABCDEF&amp;dn=x\"><i></i></a></td>\
    <td class=\"text-center\">1.2 GiB</td><td class=\"text-center\" data-timestamp=\"1\">2024-01-01 10:00</td>\
    <td class=\"text-center\">1,234</td><td class=\"text-center\">56</td><td class=\"text-center\">789</td></tr>\
    </tbody></table>";

#[test]
fn nyaa_rows() {
    let rows = NyaaPlugin::parse_results(NYAA_PAGE);
    assert_eq!(rows.len(), 1);
    let r = &rows[0];
    // The first title attribute of the row is taken, as the page scraper always did.
    assert_eq!(r.title, "Anime - English-translated");
    assert_eq!(r.magnet, Some("magnet:?xt=urn:btih:ABCDEF&amp;dn=x".to_string()));
    assert_eq!(r.info_hash, Some("abcdef".to_string()));
    assert_eq!(r.torrent_url, Some("https://nyaa.si/download/1234.torrent".to_string()));
    assert_eq!((r.seeders, r.leechers), (1234, 56));
    assert_eq!(r.size_text, "1.2 GiB");
    assert_eq!(r.upload_date, Some("2024-01-01 10:00".to_string()));
    assert_eq!(r.source, "nyaa");
    assert_eq!(r.category, Some("anime".to_string()));
    assert_eq!(r.source_url, "https://nyaa.si/view/1234");
    let full = rows[0].clone().into_result(1_288_490_188);
    assert_eq!(full.size_bytes, 1_288_490_188);
    assert_eq!(full.title, "Anime - English-translated");
}

#[test]
fn nyaa_helpers() {
    assert_eq!(
        NyaaPlugin::extract_attr("<a href=\"/view/1\" title=\"T\">", "/view/", "title=\""),
        Some("T".to_string())
    );
    assert_eq!(NyaaPlugin::extract_attr("<a href=\"/x\">", "/view/", "title=\""), None);
    assert_eq!(
        NyaaPlugin::extract_href("<a href=\"/a\"></a><a href=\"/view/9\">", "/view/"),
        Some("/view/9".to_string())
    );
    let tds = vec!["x".to_string(), " class=\"c\"> 1,024 </td>".to_string()];
    assert_eq!(NyaaPlugin::extract_td_text(&tds, 1), "1,024");
    assert_eq!(NyaaPlugin::extract_td_number(&tds, 1), 1024);
    assert_eq!(NyaaPlugin::extract_td_text(&tds, 5), "");
    assert_eq!(NyaaPlugin::extract_td_number(&tds, 0), 0);
}

const TGX_PAGE: &str = "<div class=\"tgxtable\">\
    <div class=\"tgxtablerow txlight\"><div class=\"tgxtablecell\">\
    <a class=\"txlight\" title=\"Movie.2020.1080p\" href=\"/torrent/999/movie\">Movie</a></div>\
    <div><a href=\"magnet:?xt=urn:btih:FEDCBA&dn=m\">m</a></div>\
    <div><span class=\"badge\" style=\"color: green\">1,500</span></div>\
    <div><span style=\"color: red\"> 42 </span></div><div><span>3.2 GB</span></div></div>\
    <div class=\"tgxtablerow\"><div>no title here</div></div>\
    </div>";

#[test]
fn torrentgalaxy_rows() {
    let rows = TorrentGalaxyPlugin::parse_results(TGX_PAGE);
    assert_eq!(rows.len(), 1);
    let r = &rows[0];
    assert_eq!(r.title, "Movie.2020.1080p");
    assert_eq!(r.magnet, Some("magnet:?xt=urn:btih:FEDCBA&dn=m".to_string()));
    assert_eq!(r.info_hash, Some("fedcba".to_string()));
    assert_eq!((r.seeders, r.leechers), (1500, 42));
    assert_eq!(r.size_text, "3.2 GB");
    assert_eq!(r.torrent_url, None);
    assert_eq!(r.upload_date, None);
    assert_eq!(r.category, None);
    assert_eq!(r.source, "torrentgalaxy");
    assert_eq!(r.source_url, "https://torrentgalaxy.to/torrent/999/movie");
}

#[test]
fn torrentgalaxy_helpers() {
    assert_eq!(
        TorrentGalaxyPlugin::find_attr("<a class=\"txlight\" href=\"/t/1\">", "txlight", "href"),
        Some("/t/1".to_string())
    );
    assert_eq!(TorrentGalaxyPlugin::find_colored_number("<b style=\"color: red\">abc</b>", "red"), None);
    assert_eq!(TorrentGalaxyPlugin::find_colored_number("<b style=\"color: red\">9</b>", "red"), Some(9));
    assert_eq!(TorrentGalaxyPlugin::find_size("size 700 MB here"), Some("700 MB".to_string()));
    assert_eq!(TorrentGalaxyPlugin::find_size("1.5GiB"), Some("1.5 GiB".to_string()));
    // A unit without a number before it falls through to the next unit.
    assert_eq!(TorrentGalaxyPlugin::find_size("GB then 12 MB"), Some("12 MB".to_string()));
    assert_eq!(TorrentGalaxyPlugin::find_size("no size"), None);
}

#[test]
fn size_texts_split_by_unit_table() {
    assert_eq!(size_parts("1.5 GB", SizeUnits::Leet), Some(("1.5".to_string(), 3)));
    assert_eq!(size_parts("  700   mb ", SizeUnits::Leet), Some(("700".to_string(), 2)));
    assert_eq!(size_parts("12 B", SizeUnits::Leet), Some(("12".to_string(), 0)));
    assert_eq!(size_parts("1 KiB", SizeUnits::Leet), None);
    assert_eq!(size_parts("1 kib", SizeUnits::Nyaa), Some(("1".to_string(), 1)));
    assert_eq!(size_parts("3 Bytes", SizeUnits::Nyaa), Some(("3".to_string(), 0)));
    assert_eq!(size_parts("2.25 TiB", SizeUnits::Nyaa), Some(("2.25".to_string(), 4)));
    assert_eq!(size_parts("5 B", SizeUnits::TorrentGalaxy), None);
    assert_eq!(size_parts("4 GiB", SizeUnits::TorrentGalaxy), Some(("4".to_string(), 3)));
    assert_eq!(size_parts("x", SizeUnits::Nyaa), None);
    assert_eq!(size_parts("", SizeUnits::Leet), None);
}
