//! The flat settings record as a table of key/value rows: the rows a record
//! is saved as, and the record read back from a table over the defaults.

use vstd::prelude::*;

use crate::ip_filter::blocklist::{lemma_parse_decimal_text, parse_u32_text, parse_u64_text, u32_parse, u64_parse};
use crate::settings::legacy::{AppSettings, SettingRecord};
use crate::settings::schema::Ratio;
use crate::state_machine::{lemma_policy_name_round_trip, parse_policy, parse_policy_spec, policy_name, DownloadPolicy};
use crate::text::{
    all_digits, chars_of, decimal_string, digit_str, decimal_text, decimal_value, digit_char, digit_value, find_char,
    find_first, first_at, lemma_decimal_text, lemma_digit_char, lemma_find_first_absent, lemma_find_first_at,
    same_text,
};

verus! {

broadcast use vstd::string::group_string_axioms;

/// A flat settings record with its texts as character sequences.
pub struct AppSettingsView {
    pub download_dir: Seq<char>,
    pub default_policy: DownloadPolicy,
    pub global_download_limit: u64,
    pub global_upload_limit: u64,
    pub max_active_torrents: u32,
    pub max_active_downloads: u32,
    pub max_active_seeds: u32,
    pub default_ratio_limit: Ratio,
    pub enable_dht: bool,
    pub enable_pex: bool,
    pub listen_port: u16,
    pub torbox_api_key: Option<Seq<char>>,
    pub realdebrid_api_key: Option<Seq<char>>,
    pub onboarding_completed: bool,
    pub theme: Seq<char>,
}

/// The text of an optional string.
pub open spec fn opt_view(o: Option<String>) -> Option<Seq<char>> {
    match o {
        Some(s) => Some(s@),
        None => None,
    }
}

impl View for AppSettings {
    type V = AppSettingsView;

    open spec fn view(&self) -> AppSettingsView {
        AppSettingsView {
            download_dir: self.download_dir@,
            default_policy: self.default_policy,
            global_download_limit: self.global_download_limit,
            global_upload_limit: self.global_upload_limit,
            max_active_torrents: self.max_active_torrents,
            max_active_downloads: self.max_active_downloads,
            max_active_seeds: self.max_active_seeds,
            default_ratio_limit: self.default_ratio_limit,
            enable_dht: self.enable_dht,
            enable_pex: self.enable_pex,
            listen_port: self.listen_port,
            torbox_api_key: opt_view(self.torbox_api_key),
            realdebrid_api_key: opt_view(self.realdebrid_api_key),
            onboarding_completed: self.onboarding_completed,
            theme: self.theme@,
        }
    }
}

// ─── Rows ───────────────────────────────────────────────────

/// The rows of a table as key/value texts.
pub open spec fn record_pairs(rows: Seq<SettingRecord>) -> Seq<(Seq<char>, Seq<char>)> {
    rows.map_values(|r: SettingRecord| (r.key@, r.value@))
}

/// The value stored under `key`: that of the first row with this key.
pub open spec fn stored_value(p: Seq<(Seq<char>, Seq<char>)>, key: Seq<char>) -> Option<Seq<char>>
    decreases p.len(),
{
    if p.len() == 0 {
        None
    } else if p[0].0 == key {
        Some(p[0].1)
    } else {
        stored_value(p.drop_first(), key)
    }
}

/// The row at `i` is the first with `key`, so its value is the stored one.
proof fn lemma_stored_at(p: Seq<(Seq<char>, Seq<char>)>, key: Seq<char>, i: int)
    requires
        0 <= i < p.len(),
        p[i].0 == key,
        forall|j: int| 0 <= j < i ==> p[j].0 != key,
    ensures
        stored_value(p, key) == Some(p[i].1),
    decreases i,
{
    if i > 0 {
        lemma_stored_at(p.drop_first(), key, i - 1);
    }
}

/// Rows without `key` in front of a table change nothing of what it stores.
proof fn lemma_stored_skip(a: Seq<(Seq<char>, Seq<char>)>, b: Seq<(Seq<char>, Seq<char>)>, key: Seq<char>)
    requires
        forall|j: int| 0 <= j < a.len() ==> a[j].0 != key,
    ensures
        stored_value(a + b, key) == stored_value(b, key),
    decreases a.len(),
{
    if a.len() > 0 {
        assert((a + b).drop_first() =~= a.drop_first() + b);
        assert((a + b)[0] == a[0]);
        lemma_stored_skip(a.drop_first(), b, key);
    }
}

/// Rows in front of a table that hold `key` decide what it stores.
proof fn lemma_stored_front(a: Seq<(Seq<char>, Seq<char>)>, b: Seq<(Seq<char>, Seq<char>)>, key: Seq<char>)
    requires
        stored_value(a, key) is Some,
    ensures
        stored_value(a + b, key) == stored_value(a, key),
    decreases a.len(),
{
    if a.len() > 0 {
        assert((a + b).drop_first() =~= a.drop_first() + b);
        assert((a + b)[0] == a[0]);
        if a[0].0 != key {
            lemma_stored_front(a.drop_first(), b, key);
        }
    }
}

/// What rows in front of a table store comes first.
pub broadcast proof fn lemma_stored_concat(
    a: Seq<(Seq<char>, Seq<char>)>,
    b: Seq<(Seq<char>, Seq<char>)>,
    key: Seq<char>,
)
    ensures
        #[trigger] stored_value(a + b, key) == match stored_value(a, key) {
            Some(v) => Some(v),
            None => stored_value(b, key),
        },
{
    if stored_value(a, key) is Some {
        lemma_stored_front(a, b, key);
    } else {
        lemma_stored_none(a, key);
        lemma_stored_skip(a, b, key);
    }
}

proof fn lemma_stored_none(a: Seq<(Seq<char>, Seq<char>)>, key: Seq<char>)
    requires
        stored_value(a, key) is None,
    ensures
        forall|j: int| 0 <= j < a.len() ==> a[j].0 != key,
    decreases a.len(),
{
    if a.len() > 0 {
        lemma_stored_none(a.drop_first(), key);
        assert forall|j: int| 0 <= j < a.len() implies a[j].0 != key by {
            if j > 0 {
                assert(a[j] == a.drop_first()[j - 1]);
            }
        }
    }
}

/// A single row stores its value under its key, and nothing else.
pub broadcast proof fn lemma_stored_row(k: Seq<char>, v: Seq<char>, key: Seq<char>)
    ensures
        #[trigger] stored_value(seq![(k, v)], key) == if k == key {
            Some(v)
        } else {
            None
        },
{
    let r = seq![(k, v)];
    assert(r[0] == (k, v));
    assert(r.drop_first() =~= Seq::<(Seq<char>, Seq<char>)>::empty());
    assert(stored_value(r.drop_first(), key) is None);
}

/// Look up the value stored under `key`.
fn stored(rows: &[SettingRecord], key: &str) -> (r: Option<String>)
    ensures
        opt_view(r) == stored_value(record_pairs(rows@), key@),
{
    let ghost p = record_pairs(rows@);
    assert(p.subrange(0, p.len() as int) =~= p);
    let mut i: usize = 0;
    while i < rows.len()
        invariant
            i <= rows@.len(),
            p == record_pairs(rows@),
            stored_value(p, key@) == stored_value(p.subrange(i as int, p.len() as int), key@),
        decreases rows@.len() - i,
    {
        let ghost rest = p.subrange(i as int, p.len() as int);
        assert(rest[0] == (rows@[i as int].key@, rows@[i as int].value@));
        if same_text(rows[i].key.as_str(), key) {
            return Some(rows[i].value.clone());
        }
        assert(rest.drop_first() =~= p.subrange(i + 1, p.len() as int));
        i = i + 1;
    }
    None
}

// ─── Values ─────────────────────────────────────────────────

/// An unsigned 64-bit value read from its text.
pub open spec fn u64_value(t: Seq<char>) -> Option<u64> {
    match u64_parse(t) {
        Ok(n) => Some(n),
        Err(_) => None,
    }
}

/// An unsigned 32-bit value read from its text.
pub open spec fn u32_value(t: Seq<char>) -> Option<u32> {
    match u32_parse(t) {
        Ok(n) => Some(n),
        Err(_) => None,
    }
}

/// An unsigned 16-bit value read from its text: a 32-bit one that fits.
pub open spec fn u16_value(t: Seq<char>) -> Option<u16> {
    match u32_parse(t) {
        Ok(n) => if n <= 65535 {
            Some(n as u16)
        } else {
            None
        },
        Err(_) => None,
    }
}

/// The value read, or `fallback` where the text does not read as one.
pub open spec fn or_else<T>(o: Option<T>, fallback: T) -> T {
    match o {
        Some(v) => v,
        None => fallback,
    }
}

/// How a flag is written.
pub open spec fn bool_text(b: bool) -> Seq<char> {
    if b {
        "true"@
    } else {
        "false"@
    }
}

fn read_u64(t: &String) -> (r: Option<u64>)
    ensures
        r == u64_value(t@),
{
    let v = chars_of(t.as_str());
    assert(v@.subrange(0, v@.len() as int) =~= v@);
    match parse_u64_text(&v, 0, v.len()) {
        Ok(n) => Some(n),
        Err(_) => None,
    }
}

fn read_u32(t: &String) -> (r: Option<u32>)
    ensures
        r == u32_value(t@),
{
    let v = chars_of(t.as_str());
    assert(v@.subrange(0, v@.len() as int) =~= v@);
    match parse_u32_text(&v, 0, v.len()) {
        Ok(n) => Some(n),
        Err(_) => None,
    }
}

fn read_u16(t: &String) -> (r: Option<u16>)
    ensures
        r == u16_value(t@),
{
    let v = chars_of(t.as_str());
    assert(v@.subrange(0, v@.len() as int) =~= v@);
    match parse_u32_text(&v, 0, v.len()) {
        Ok(n) => if n <= 65535 {
            Some(n as u16)
        } else {
            None
        },
        Err(_) => None,
    }
}

fn read_bool(t: &String) -> (r: bool)
    ensures
        r == (t@ == "true"@),
{
    same_text(t.as_str(), "true")
}

fn bool_string(b: bool) -> (r: String)
    ensures
        r@ == bool_text(b),
{
    if b {
        String::from_str("true")
    } else {
        String::from_str("false")
    }
}

// ─── Ratios ─────────────────────────────────────────────────

/// The fraction digits of `f` thousandths, without trailing zeros: `.5` for
/// 500, `.125` for 125, nothing for 0.
pub open spec fn fraction_text(f: nat) -> Seq<char> {
    if f == 0 {
        seq![]
    } else if f % 100 == 0 {
        seq!['.', digit_char(f / 100)]
    } else if f % 10 == 0 {
        seq!['.', digit_char(f / 100), digit_char((f / 10) % 10)]
    } else {
        seq!['.', digit_char(f / 100), digit_char((f / 10) % 10), digit_char(f % 10)]
    }
}

/// How a ratio is written: its shortest decimal form, `2` for 2.0 and `1.5`
/// for 1.5.
pub open spec fn ratio_text(r: Ratio) -> Seq<char> {
    decimal_text(r.thousandths as nat / 1000) + fraction_text(r.thousandths as nat % 1000)
}

/// The digit at `i`, zero past the end.
pub open spec fn digit_at(d: Seq<char>, i: int) -> nat {
    if 0 <= i < d.len() {
        digit_value(d[i])
    } else {
        0
    }
}

/// The thousandths a run of fraction digits stands for (digits past the
/// third are dropped).
pub open spec fn fraction_value(d: Seq<char>) -> nat {
    digit_at(d, 0) * 100 + digit_at(d, 1) * 10 + digit_at(d, 2)
}

/// A ratio text without its leading `+`.
pub open spec fn ratio_body(s: Seq<char>) -> Seq<char> {
    if s.len() > 0 && s[0] == '+' {
        s.drop_first()
    } else {
        s
    }
}

/// The digits before the decimal point.
pub open spec fn whole_digits(b: Seq<char>) -> Seq<char> {
    match find_first(b, '.') {
        Some(k) => b.subrange(0, k),
        None => b,
    }
}

/// The digits after the decimal point.
pub open spec fn fraction_digits(b: Seq<char>) -> Seq<char> {
    match find_first(b, '.') {
        Some(k) => b.subrange(k + 1, b.len() as int),
        None => seq![],
    }
}

/// The ratio a text stands for: an optional `+`, digits, and optionally a
/// decimal point and more digits, with at least one digit in all; to the
/// thousandth, within 64 bits. Any other text reads as no ratio.
pub open spec fn ratio_value(s: Seq<char>) -> Option<Ratio> {
    let b = ratio_body(s);
    let w = whole_digits(b);
    let f = fraction_digits(b);
    if w.len() + f.len() == 0 || !all_digits(w) || !all_digits(f) {
        None
    } else if decimal_value(w) * 1000 + fraction_value(f) > u64::MAX {
        None
    } else {
        Some(Ratio { thousandths: (decimal_value(w) * 1000 + fraction_value(f)) as u64 })
    }
}

proof fn lemma_decimal_value_prefix(s: Seq<char>, i: int)
    requires
        0 <= i <= s.len(),
    ensures
        decimal_value(s.subrange(0, i)) <= decimal_value(s),
    decreases s.len() - i,
{
    if i < s.len() {
        let t = s.subrange(0, i + 1);
        assert(t.subrange(0, i) =~= s.subrange(0, i));
        assert(decimal_value(t) == decimal_value(s.subrange(0, i)) * 10 + digit_value(t[i]));
        lemma_decimal_value_prefix(s, i + 1);
    } else {
        assert(s.subrange(0, i) =~= s);
    }
}

/// Read a ratio from its text.
pub fn parse_ratio(s: &str) -> (r: Option<Ratio>)
    ensures
        r == ratio_value(s@),
{
    let v = chars_of(s);
    let n = v.len();
    let start: usize = if n > 0 && v[0] == '+' {
        1
    } else {
        0
    };
    let ghost b = v@.subrange(start as int, n as int);
    assert(b =~= ratio_body(s@));
    let dot = find_char(&v, start, n, '.');
    let (w_hi, f_lo) = match dot {
        Some(k) => (k, k + 1),
        None => (n, n),
    };
    let ghost w = v@.subrange(start as int, w_hi as int);
    let ghost f = v@.subrange(f_lo as int, n as int);
    proof {
        match dot {
            Some(k) => {
                assert(b.subrange(0, k - start) =~= w);
                assert(b.subrange(k - start + 1, b.len() as int) =~= f);
            },
            None => {
                assert(f =~= Seq::<char>::empty());
            },
        }
        assert(w == whole_digits(b));
        assert(f == fraction_digits(b));
    }
    if w_hi - start + (n - f_lo) == 0 {
        return None;
    }
    let mut whole: u64 = 0;
    let mut i = start;
    while i < w_hi
        invariant
            start <= i <= w_hi <= n == v@.len(),
            f_lo <= n,
            w == v@.subrange(start as int, w_hi as int),
            w == whole_digits(ratio_body(s@)),
            f == fraction_digits(ratio_body(s@)),
            w.len() + f.len() > 0,
            all_digits(v@.subrange(start as int, i as int)),
            whole == decimal_value(v@.subrange(start as int, i as int)),
            whole <= 18446744073709551,
        decreases w_hi - i,
    {
        let c = v[i];
        let ghost pre = v@.subrange(start as int, i + 1);
        assert(pre.subrange(0, i - start) =~= v@.subrange(start as int, i as int));
        assert(w.subrange(0, i + 1 - start) =~= pre);
        if !('0' <= c && c <= '9') {
            assert(!crate::text::is_digit(w[i - start]));
            assert(!all_digits(w));
            return None;
        }
        let d: u64 = (c as u32 - '0' as u32) as u64;
        let next: u64 = whole * 10 + d;
        assert(decimal_value(pre) == next);
        if next > 18446744073709551 {
            proof {
                lemma_decimal_value_prefix(w, i + 1 - start);
                assert(decimal_value(w) * 1000 > u64::MAX);
            }
            return None;
        }
        whole = next;
        i = i + 1;
    }
    let mut frac: u64 = 0;
    let mut j = f_lo;
    while j < n
        invariant
            f_lo <= j <= n == v@.len(),
            f == v@.subrange(f_lo as int, n as int),
            w == whole_digits(ratio_body(s@)),
            f == fraction_digits(ratio_body(s@)),
            all_digits(v@.subrange(f_lo as int, j as int)),
            frac == fraction_value(v@.subrange(f_lo as int, j as int)),
            frac <= 999,
        decreases n - j,
    {
        let c = v[j];
        let ghost pre = v@.subrange(f_lo as int, j as int);
        let ghost next_pre = v@.subrange(f_lo as int, j + 1);
        assert(next_pre.subrange(0, j - f_lo) =~= pre);
        assert(f.subrange(0, j + 1 - f_lo) =~= next_pre);
        if !('0' <= c && c <= '9') {
            assert(!crate::text::is_digit(f[j - f_lo]));
            assert(!all_digits(f));
            return None;
        }
        let d: u64 = (c as u32 - '0' as u32) as u64;
        if j - f_lo == 0 {
            frac = frac + d * 100;
        } else if j - f_lo == 1 {
            frac = frac + d * 10;
        } else if j - f_lo == 2 {
            frac = frac + d;
        }
        j = j + 1;
    }
    assert(v@.subrange(start as int, w_hi as int) =~= w);
    assert(v@.subrange(f_lo as int, n as int) =~= f);
    let base: u64 = whole * 1000;
    if frac > 18446744073709551615 - base {
        return None;
    }
    Some(Ratio { thousandths: base + frac })
}

/// Write a ratio as text.
pub fn ratio_string(r: Ratio) -> (t: String)
    ensures
        t@ == ratio_text(r),
{
    let whole = r.thousandths / 1000;
    let f = r.thousandths % 1000;
    let mut t = decimal_string(whole);
    if f != 0 {
        let ghost head = t@;
        t.append(".");
        t.append(digit_str(f / 100));
        proof {
            reveal_strlit(".");
        }
        if f % 100 != 0 {
            t.append(digit_str((f / 10) % 10));
            if f % 10 != 0 {
                t.append(digit_str(f % 10));
            }
        }
        assert(t@ =~= head + fraction_text(f as nat));
    } else {
        assert(fraction_text(0) =~= Seq::<char>::empty());
        assert(t@ + Seq::<char>::empty() =~= t@);
    }
    t
}

/// Reading a written ratio gives the ratio back.
pub proof fn lemma_ratio_text_round_trip(r: Ratio)
    ensures
        ratio_value(ratio_text(r)) == Some(r),
{
    let t = r.thousandths as nat;
    let w = t / 1000;
    let f = t % 1000;
    let d = decimal_text(w);
    let text = ratio_text(r);
    lemma_decimal_text(w);
    assert(crate::text::is_digit(d[0]));
    assert(text[0] == d[0]);
    assert(ratio_body(text) == text);
    assert(w * 1000 + f == t);
    if f == 0 {
        assert(text =~= d);
        assert forall|j: int| 0 <= j < text.len() implies text[j] != '.' by {
            assert(crate::text::is_digit(d[j]));
        }
        lemma_find_first_absent(text, '.');
        assert(whole_digits(text) == d);
        assert(fraction_digits(text) =~= Seq::<char>::empty());
        assert(fraction_value(Seq::<char>::empty()) == 0);
    } else {
        let tail = fraction_text(f);
        assert(text =~= d + tail);
        assert(tail[0] == '.');
        assert forall|j: int| 0 <= j < d.len() implies text[j] != '.' by {
            assert(crate::text::is_digit(d[j]));
        }
        assert(first_at(text, 0, text.len() as int, '.', d.len() as int));
        lemma_find_first_at(text, '.', d.len() as int);
        assert(text.subrange(0, d.len() as int) =~= d);
        let digits = text.subrange(d.len() as int + 1, text.len() as int);
        assert(digits =~= tail.drop_first());
        lemma_digit_char(f / 100);
        lemma_digit_char((f / 10) % 10);
        lemma_digit_char(f % 10);
        assert(all_digits(digits));
        assert(f == (f / 100) * 100 + ((f / 10) % 10) * 10 + f % 10);
        assert(fraction_value(digits) == f);
    }
}

// ─── Records ────────────────────────────────────────────────

/// The rows a record is saved as, one per field; an API key that is not set
/// has no row.
pub open spec fn saved_pairs(s: AppSettingsView) -> Seq<(Seq<char>, Seq<char>)> {
    seq![("download_dir"@, s.download_dir)]
        + seq![("default_policy"@, policy_name(s.default_policy))]
        + seq![("global_download_limit"@, decimal_text(s.global_download_limit as nat))]
        + seq![("global_upload_limit"@, decimal_text(s.global_upload_limit as nat))]
        + seq![("max_active_torrents"@, decimal_text(s.max_active_torrents as nat))]
        + seq![("max_active_downloads"@, decimal_text(s.max_active_downloads as nat))]
        + seq![("max_active_seeds"@, decimal_text(s.max_active_seeds as nat))]
        + seq![("default_ratio_limit"@, ratio_text(s.default_ratio_limit))]
        + seq![("enable_dht"@, bool_text(s.enable_dht))]
        + seq![("enable_pex"@, bool_text(s.enable_pex))]
        + seq![("listen_port"@, decimal_text(s.listen_port as nat))]
        + seq![("onboarding_completed"@, bool_text(s.onboarding_completed))]
        + seq![("theme"@, s.theme)]
        + key_row("torbox_api_key"@, s.torbox_api_key)
        + key_row("realdebrid_api_key"@, s.realdebrid_api_key)
}

/// The row of an optional key: none where it is not set.
pub open spec fn key_row(k: Seq<char>, v: Option<Seq<char>>) -> Seq<(Seq<char>, Seq<char>)> {
    match v {
        Some(t) => seq![(k, t)],
        None => seq![],
    }
}

/// The record read from a table over the defaults `d`: each field whose key
/// has a row takes that row's value, read as the field's type; a value that
/// does not read falls back to a fixed value (0 for speed limits, 10 active
/// torrents, 5 active downloads and seeds, a 2.0 ratio, port 6881, and only
/// `true` as a set flag). Fields without a row keep the default.
pub open spec fn loaded_view(d: AppSettingsView, p: Seq<(Seq<char>, Seq<char>)>) -> AppSettingsView {
    AppSettingsView {
        download_dir: or_else(stored_value(p, "download_dir"@), d.download_dir),
        default_policy: match stored_value(p, "default_policy"@) {
            Some(t) => parse_policy_spec(t),
            None => d.default_policy,
        },
        global_download_limit: match stored_value(p, "global_download_limit"@) {
            Some(t) => or_else(u64_value(t), 0),
            None => d.global_download_limit,
        },
        global_upload_limit: match stored_value(p, "global_upload_limit"@) {
            Some(t) => or_else(u64_value(t), 0),
            None => d.global_upload_limit,
        },
        max_active_torrents: match stored_value(p, "max_active_torrents"@) {
            Some(t) => or_else(u32_value(t), 10),
            None => d.max_active_torrents,
        },
        max_active_downloads: match stored_value(p, "max_active_downloads"@) {
            Some(t) => or_else(u32_value(t), 5),
            None => d.max_active_downloads,
        },
        max_active_seeds: match stored_value(p, "max_active_seeds"@) {
            Some(t) => or_else(u32_value(t), 5),
            None => d.max_active_seeds,
        },
        default_ratio_limit: match stored_value(p, "default_ratio_limit"@) {
            Some(t) => or_else(ratio_value(t), Ratio { thousandths: 2000 }),
            None => d.default_ratio_limit,
        },
        enable_dht: match stored_value(p, "enable_dht"@) {
            Some(t) => t == "true"@,
            None => d.enable_dht,
        },
        enable_pex: match stored_value(p, "enable_pex"@) {
            Some(t) => t == "true"@,
            None => d.enable_pex,
        },
        listen_port: match stored_value(p, "listen_port"@) {
            Some(t) => or_else(u16_value(t), 6881),
            None => d.listen_port,
        },
        torbox_api_key: match stored_value(p, "torbox_api_key"@) {
            Some(t) => Some(t),
            None => d.torbox_api_key,
        },
        realdebrid_api_key: match stored_value(p, "realdebrid_api_key"@) {
            Some(t) => Some(t),
            None => d.realdebrid_api_key,
        },
        onboarding_completed: match stored_value(p, "onboarding_completed"@) {
            Some(t) => t == "true"@,
            None => d.onboarding_completed,
        },
        theme: or_else(stored_value(p, "theme"@), d.theme),
    }
}

fn record(key: &str, value: String) -> (r: SettingRecord)
    ensures
        r.key@ == key@,
        r.value == value,
{
    SettingRecord { key: String::from_str(key), value }
}

/// The rows a flat settings record is saved as (each written over any row
/// with the same key).
pub fn settings_records(s: &AppSettings) -> (r: Vec<SettingRecord>)
    ensures
        record_pairs(r@) == saved_pairs(s@),
{
    let mut r: Vec<SettingRecord> = Vec::new();
    r.push(record("download_dir", s.download_dir.clone()));
    r.push(record("default_policy", String::from_str(s.default_policy.as_str())));
    r.push(record("global_download_limit", decimal_string(s.global_download_limit)));
    r.push(record("global_upload_limit", decimal_string(s.global_upload_limit)));
    r.push(record("max_active_torrents", decimal_string(s.max_active_torrents as u64)));
    r.push(record("max_active_downloads", decimal_string(s.max_active_downloads as u64)));
    r.push(record("max_active_seeds", decimal_string(s.max_active_seeds as u64)));
    r.push(record("default_ratio_limit", ratio_string(s.default_ratio_limit)));
    r.push(record("enable_dht", bool_string(s.enable_dht)));
    r.push(record("enable_pex", bool_string(s.enable_pex)));
    r.push(record("listen_port", decimal_string(s.listen_port as u64)));
    r.push(record("onboarding_completed", bool_string(s.onboarding_completed)));
    r.push(record("theme", s.theme.clone()));
    let ghost fixed = r@;
    match &s.torbox_api_key {
        Some(k) => r.push(record("torbox_api_key", k.clone())),
        None => {},
    }
    let ghost with_torbox = r@;
    match &s.realdebrid_api_key {
        Some(k) => r.push(record("realdebrid_api_key", k.clone())),
        None => {},
    }
    proof {
        let sv = s@;
        let rows = record_pairs(r@);
        let want = saved_pairs(sv);
        assert(rows.len() == want.len());
        assert forall|i: int| 0 <= i < rows.len() implies rows[i] == want[i] by {
            if i < 13 {
                assert(r@[i] == fixed[i]);
            }
        }
        assert(rows =~= want);
    }
    r
}

fn text_field(rows: &[SettingRecord], key: &str, d: String) -> (r: String)
    ensures
        r@ == or_else(stored_value(record_pairs(rows@), key@), d@),
{
    match stored(rows, key) {
        Some(v) => v,
        None => d,
    }
}

fn u64_field(rows: &[SettingRecord], key: &str, d: u64, fallback: u64) -> (r: u64)
    ensures
        r == match stored_value(record_pairs(rows@), key@) {
            Some(t) => or_else(u64_value(t), fallback),
            None => d,
        },
{
    match stored(rows, key) {
        Some(v) => match read_u64(&v) {
            Some(n) => n,
            None => fallback,
        },
        None => d,
    }
}

fn u32_field(rows: &[SettingRecord], key: &str, d: u32, fallback: u32) -> (r: u32)
    ensures
        r == match stored_value(record_pairs(rows@), key@) {
            Some(t) => or_else(u32_value(t), fallback),
            None => d,
        },
{
    match stored(rows, key) {
        Some(v) => match read_u32(&v) {
            Some(n) => n,
            None => fallback,
        },
        None => d,
    }
}

fn flag_field(rows: &[SettingRecord], key: &str, d: bool) -> (r: bool)
    ensures
        r == match stored_value(record_pairs(rows@), key@) {
            Some(t) => t == "true"@,
            None => d,
        },
{
    match stored(rows, key) {
        Some(v) => read_bool(&v),
        None => d,
    }
}

fn key_field(rows: &[SettingRecord], key: &str, d: Option<String>) -> (r: Option<String>)
    ensures
        opt_view(r) == match stored_value(record_pairs(rows@), key@) {
            Some(t) => Some(t),
            None => opt_view(d),
        },
{
    match stored(rows, key) {
        Some(v) => Some(v),
        None => d,
    }
}

/// Read a flat settings record from the rows of a table, over the defaults.
pub fn settings_from_records(defaults: AppSettings, rows: &[SettingRecord]) -> (r: AppSettings)
    ensures
        r@ == loaded_view(defaults@, record_pairs(rows@)),
{
    let ghost dv = defaults@;
    let AppSettings {
        download_dir,
        default_policy,
        global_download_limit,
        global_upload_limit,
        max_active_torrents,
        max_active_downloads,
        max_active_seeds,
        default_ratio_limit,
        enable_dht,
        enable_pex,
        listen_port,
        torbox_api_key,
        realdebrid_api_key,
        onboarding_completed,
        theme,
    } = defaults;
    let policy = match stored(rows, "default_policy") {
        Some(v) => parse_policy(v.as_str()),
        None => default_policy,
    };
    let ratio = match stored(rows, "default_ratio_limit") {
        Some(v) => match parse_ratio(v.as_str()) {
            Some(q) => q,
            None => Ratio { thousandths: 2000 },
        },
        None => default_ratio_limit,
    };
    let port = match stored(rows, "listen_port") {
        Some(v) => match read_u16(&v) {
            Some(n) => n,
            None => 6881,
        },
        None => listen_port,
    };
    AppSettings {
        download_dir: text_field(rows, "download_dir", download_dir),
        default_policy: policy,
        global_download_limit: u64_field(rows, "global_download_limit", global_download_limit, 0),
        global_upload_limit: u64_field(rows, "global_upload_limit", global_upload_limit, 0),
        max_active_torrents: u32_field(rows, "max_active_torrents", max_active_torrents, 10),
        max_active_downloads: u32_field(rows, "max_active_downloads", max_active_downloads, 5),
        max_active_seeds: u32_field(rows, "max_active_seeds", max_active_seeds, 5),
        default_ratio_limit: ratio,
        enable_dht: flag_field(rows, "enable_dht", enable_dht),
        enable_pex: flag_field(rows, "enable_pex", enable_pex),
        listen_port: port,
        torbox_api_key: key_field(rows, "torbox_api_key", torbox_api_key),
        realdebrid_api_key: key_field(rows, "realdebrid_api_key", realdebrid_api_key),
        onboarding_completed: flag_field(rows, "onboarding_completed", onboarding_completed),
        theme: text_field(rows, "theme", theme),
    }
}

/// Saving a record and reading it back gives the record. Saving writes each
/// field's row over the table's row with that key, so the table after a save
/// reads as the saved rows in front of the old ones. Every field reads back
/// as it was written; an API key that is not set has no row and reads back
/// as the old table (or, without a row there, the defaults) holds it.
pub proof fn lemma_saved_settings_read_back(
    s: AppSettingsView,
    d: AppSettingsView,
    old: Seq<(Seq<char>, Seq<char>)>,
)
    ensures
        loaded_view(d, saved_pairs(s) + old) == (AppSettingsView {
            torbox_api_key: if s.torbox_api_key is Some {
                s.torbox_api_key
            } else {
                loaded_view(d, old).torbox_api_key
            },
            realdebrid_api_key: if s.realdebrid_api_key is Some {
                s.realdebrid_api_key
            } else {
                loaded_view(d, old).realdebrid_api_key
            },
            ..s
        }),
{
    broadcast use lemma_stored_concat, lemma_stored_row;

    reveal_strlit("download_dir");
    reveal_strlit("default_policy");
    reveal_strlit("global_download_limit");
    reveal_strlit("global_upload_limit");
    reveal_strlit("max_active_torrents");
    reveal_strlit("max_active_downloads");
    reveal_strlit("max_active_seeds");
    reveal_strlit("default_ratio_limit");
    reveal_strlit("enable_dht");
    reveal_strlit("enable_pex");
    reveal_strlit("listen_port");
    reveal_strlit("onboarding_completed");
    reveal_strlit("theme");
    reveal_strlit("torbox_api_key");
    reveal_strlit("realdebrid_api_key");
    reveal_strlit("true");
    reveal_strlit("false");
    assert("download_dir"@.len() == 12);
    assert("default_policy"@.len() == 14);
    assert("global_download_limit"@.len() == 21);
    assert("global_upload_limit"@.len() == 19);
    assert("max_active_torrents"@.len() == 19);
    assert("max_active_downloads"@.len() == 20);
    assert("max_active_seeds"@.len() == 16);
    assert("default_ratio_limit"@.len() == 19);
    assert("enable_dht"@.len() == 10);
    assert("enable_pex"@.len() == 10);
    assert("listen_port"@.len() == 11);
    assert("onboarding_completed"@.len() == 20);
    assert("theme"@.len() == 5);
    assert("torbox_api_key"@.len() == 14);
    assert("realdebrid_api_key"@.len() == 18);
    assert("true"@.len() == 4);
    assert("false"@.len() == 5);
    assert("enable_dht"@[7] != "enable_pex"@[7]);
    assert("default_policy"@[0] != "torbox_api_key"@[0]);
    assert("global_upload_limit"@[0] != "max_active_torrents"@[0]);
    assert("global_upload_limit"@[0] != "default_ratio_limit"@[0]);
    assert("max_active_torrents"@[0] != "default_ratio_limit"@[0]);
    assert("max_active_downloads"@[0] != "onboarding_completed"@[0]);
    lemma_policy_name_round_trip(s.default_policy);
    lemma_parse_decimal_text(s.global_download_limit as nat);
    lemma_parse_decimal_text(s.global_upload_limit as nat);
    lemma_parse_decimal_text(s.max_active_torrents as nat);
    lemma_parse_decimal_text(s.max_active_downloads as nat);
    lemma_parse_decimal_text(s.max_active_seeds as nat);
    lemma_parse_decimal_text(s.listen_port as nat);
    lemma_ratio_text_round_trip(s.default_ratio_limit);
}

} // verus!
