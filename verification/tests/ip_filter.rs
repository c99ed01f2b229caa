use tsubasa::ip_filter::blocklist::{parse_cidr, parse_dat_file, parse_p2p_file, IpRange};
use tsubasa::ip_filter::filter::{IPFilter, IPFilterManager, IpAddr};
use tsubasa::settings::schema::IPFilterSettings;

fn v4(a: u8, b: u8, c: u8, d: u8) -> IpAddr {
    IpAddr::V4([a, b, c, d])
}

#[test]
fn ip_range_from_octets() {
    let r = IpRange::new([10, 0, 0, 1], [10, 0, 0, 255]);
    assert_eq!(r.start, 0x0a00_0001);
    assert_eq!(r.end, 0x0a00_00ff);
}

#[test]
fn dat_lines_parse_and_skip() {
    let content = "# comment\n\nBad Guys:1.2.3.0-1.2.3.255\nSpaced: 10.0.0.1 - 10.0.0.5 \nnot a range\nBroken:1.2.3-4.5.6.7\n";
    let ranges = parse_dat_file(content);
    assert_eq!(ranges.len(), 2);
    assert_eq!((ranges[0].start, ranges[0].end), (0x0102_0300, 0x0102_03ff));
    assert_eq!((ranges[1].start, ranges[1].end), (0x0a00_0001, 0x0a00_0005));
}

#[test]
fn dat_uses_last_colon() {
    let ranges = parse_dat_file("Name: with: colons:5.6.7.8-5.6.7.9");
    assert_eq!(ranges.len(), 1);
    assert_eq!((ranges[0].start, ranges[0].end), (0x0506_0708, 0x0506_0709));
}

#[test]
fn p2p_lines_parse_and_skip() {
    let content = "1.1.1.1 - 1.1.1.10 , 000 , Example\r\n# c\n2.2.2.2-2.2.2.3 , 100 , no spaces\n3.3.3.3 - 3.3.3.4\n";
    let ranges = parse_p2p_file(content);
    assert_eq!(ranges.len(), 2);
    assert_eq!((ranges[0].start, ranges[0].end), (0x0101_0101, 0x0101_010a));
    assert_eq!((ranges[1].start, ranges[1].end), (0x0303_0303, 0x0303_0304));
}

#[test]
fn cidr_ranges() {
    let r = parse_cidr("192.168.1.77/24").unwrap();
    assert_eq!((r.start, r.end), (0xc0a8_0100, 0xc0a8_01ff));
    let all = parse_cidr("8.8.8.8/0").unwrap();
    assert_eq!((all.start, all.end), (0, u32::MAX));
    let one = parse_cidr("8.8.8.8/32").unwrap();
    assert_eq!((one.start, one.end), (0x0808_0808, 0x0808_0808));
}

#[test]
fn cidr_errors() {
    assert_eq!(parse_cidr("10.0.0.0").unwrap_err(), "Invalid CIDR: 10.0.0.0");
    assert_eq!(parse_cidr("1/2/3").unwrap_err(), "Invalid CIDR: 1/2/3");
    assert_eq!(parse_cidr("10.0.0.0/33").unwrap_err(), "Prefix length 33 > 32");
    assert_eq!(
        parse_cidr("10.0.0/8").unwrap_err(),
        "Invalid IP in CIDR: invalid IPv4 address syntax"
    );
    assert_eq!(
        parse_cidr("10.0.0.0/x").unwrap_err(),
        "Invalid prefix length: invalid digit found in string"
    );
    assert_eq!(
        parse_cidr("10.0.0.0/").unwrap_err(),
        "Invalid prefix length: cannot parse integer from empty string"
    );
}

#[test]
fn filter_blocks_ranges_and_bans() {
    let mut f = IPFilter::new();
    assert!(!f.is_blocked(v4(1, 2, 3, 4)));
    let n = f.load_dat_file("A:1.2.3.0-1.2.3.255\nB:9.9.9.9-9.9.9.9\n");
    assert_eq!(n, 2);
    assert_eq!(f.range_count(), 2);
    assert!(f.is_blocked(v4(1, 2, 3, 4)));
    assert!(f.is_blocked(v4(9, 9, 9, 9)));
    assert!(!f.is_blocked(v4(9, 9, 9, 10)));
    assert!(!f.is_blocked(IpAddr::V6([0; 8])));
    f.ban_ip([7, 7, 7, 7]);
    assert_eq!(f.manual_ban_count(), 1);
    assert!(f.is_blocked(v4(7, 7, 7, 7)));
    f.unban_ip([7, 7, 7, 7]);
    assert!(!f.is_blocked(v4(7, 7, 7, 7)));
    f.clear();
    assert_eq!(f.range_count(), 0);
    assert!(!f.is_blocked(v4(1, 2, 3, 4)));
}

#[test]
fn filter_merges_overlapping_and_adjacent() {
    let mut f = IPFilter::new();
    // Unsorted input: sorting by start must happen before merging.
    f.add_ranges(vec![
        IpRange { start: 50, end: 60 },
        IpRange { start: 10, end: 20 },
        IpRange { start: 21, end: 30 },
        IpRange { start: 15, end: 18 },
        IpRange { start: 100, end: 200 },
    ]);
    assert_eq!(f.range_count(), 3);
    assert!(f.is_blocked(IpAddr::V4([0, 0, 0, 25])));
    assert!(!f.is_blocked(IpAddr::V4([0, 0, 0, 40])));
    assert!(f.is_blocked(IpAddr::V4([0, 0, 0, 150])));
}

#[test]
fn filter_add_cidr_result() {
    let mut f = IPFilter::new();
    assert!(f.add_cidr("10.1.0.0/16").is_ok());
    assert!(f.is_blocked(v4(10, 1, 200, 3)));
    assert!(!f.is_blocked(v4(10, 2, 0, 0)));
    assert_eq!(f.add_cidr("nonsense"), Err("Invalid CIDR: nonsense".to_string()));
    assert_eq!(f.range_count(), 1);
}

#[test]
fn manager_respects_enabled_flag() {
    let mut settings = IPFilterSettings::default();
    let mut m = IPFilterManager::new(settings.clone());
    assert!(!m.is_enabled());
    assert_eq!(m.load_blocklist("DAT", "X:5.5.5.0-5.5.5.255"), 1);
    assert!(!m.is_blocked(v4(5, 5, 5, 5)));
    settings.enabled = true;
    m.update_config(settings);
    assert!(m.is_blocked(v4(5, 5, 5, 5)));
    assert_eq!(m.stats(), (1, 0));
    m.ban_ip([6, 6, 6, 6]);
    assert_eq!(m.stats(), (1, 1));
    m.unban_ip([6, 6, 6, 6]);
    assert_eq!(m.stats(), (1, 0));
}

#[test]
fn manager_reload_replaces_ranges() {
    let mut settings = IPFilterSettings::default();
    settings.enabled = true;
    let mut m = IPFilterManager::new(settings);
    assert_eq!(m.load_blocklist("dat", "X:5.5.5.0-5.5.5.255"), 1);
    assert_eq!(m.load_blocklist("p2p", "6.6.6.0 - 6.6.6.255 , 0 , y"), 1);
    assert!(!m.is_blocked(v4(5, 5, 5, 5)));
    assert!(m.is_blocked(v4(6, 6, 6, 6)));
}

#[test]
fn adjacent_cidrs_make_one_run() {
    let mut f = IPFilter::new();
    assert!(f.add_cidr("10.0.0.0/25").is_ok());
    assert!(f.add_cidr("10.0.0.128/25").is_ok());
    assert_eq!(f.range_count(), 1);
    f.ban_ip([1, 2, 3, 4]);
    assert_eq!(f.range_count(), 1);
    assert!(f.add_cidr("10.0.2.0/24").is_ok());
    assert_eq!(f.range_count(), 2);
    assert!(f.add_cidr("10.0.1.0/24").is_ok());
    assert_eq!(f.range_count(), 1);
}

#[test]
fn loaded_file_counts_runs_of_blocked_addresses() {
    let mut f = IPFilter::new();
    let n = f.load_dat_file("A:10.0.0.0-10.0.0.127\nB:10.0.0.128-10.0.0.255\nC:10.0.0.100-10.0.0.200\nD:10.0.2.0-10.0.2.9\n");
    assert_eq!(n, 4);
    assert_eq!(f.range_count(), 2);
    assert!(f.add_cidr("10.0.1.0/24").is_ok());
    assert_eq!(f.range_count(), 1);
}
