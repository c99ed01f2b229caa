//! Blocklist parsing.
//!
//! Formats:
//!   PeerGuardian .dat:  "Description:start_ip-end_ip"
//!   eMule .p2p:         "start_ip - end_ip , level , description"
//!   CIDR:               "192.168.1.0/24"

use vstd::prelude::*;

use crate::text::{
    all_digits, chars_of, decimal_string, decimal_text, decimal_value, digit_value, find_char,
    find_first, find_first_seq, find_last, is_digit, rfind_char, find_seq, split_on, trim,
    trim_range,
};

verus! {

/// An IP range entry from a blocklist file (both ends inclusive).
#[derive(Debug, Clone, Copy, PartialEq, Eq, Structural)]
pub struct IpRange {
    pub start: u32,
    pub end: u32,
}

/// The 32-bit value of an IPv4 address given by its four octets (big-endian).
pub open spec fn ipv4_from_octets(a: u8, b: u8, c: u8, d: u8) -> u32 {
    (a as int * 16777216 + b as int * 65536 + c as int * 256 + d as int) as u32
}

impl IpRange {
    /// The range between two IPv4 addresses, each given by its octets.
    pub fn new(start: [u8; 4], end: [u8; 4]) -> (r: IpRange)
        ensures
            r.start == ipv4_from_octets(start@[0], start@[1], start@[2], start@[3]),
            r.end == ipv4_from_octets(end@[0], end@[1], end@[2], end@[3]),
    {
        IpRange { start: octets_to_u32(start), end: octets_to_u32(end) }
    }
}

/// The 32-bit value of an IPv4 address (`u32::from(Ipv4Addr)`).
pub fn octets_to_u32(o: [u8; 4]) -> (r: u32)
    ensures
        r == ipv4_from_octets(o@[0], o@[1], o@[2], o@[3]),
{
    let a = o[0] as u32;
    let b = o[1] as u32;
    let c = o[2] as u32;
    let d = o[3] as u32;
    a * 16777216 + b * 65536 + c * 256 + d
}

// ─── Dotted-quad addresses ───────────────────────────────────

/// A decimal octet as `Ipv4Addr` accepts it: one to three ASCII digits, no
/// leading zero unless the octet is a single `0`, value at most 255.
pub open spec fn octet_value(s: Seq<char>) -> Option<u8> {
    if 1 <= s.len() <= 3 && all_digits(s) && !(s.len() > 1 && s[0] == '0') && decimal_value(s)
        <= 255 {
        Some(decimal_value(s) as u8)
    } else {
        None
    }
}

/// The address a dotted quad denotes, if `s` is one (`"a.b.c.d".parse::<Ipv4Addr>()`).
pub open spec fn ipv4_value(s: Seq<char>) -> Option<u32> {
    let p = split_on(s, '.');
    if p.len() == 4 && octet_value(p[0]) is Some && octet_value(p[1]) is Some && octet_value(
        p[2],
    ) is Some && octet_value(p[3]) is Some {
        Some(
            ipv4_from_octets(
                octet_value(p[0])->0,
                octet_value(p[1])->0,
                octet_value(p[2])->0,
                octet_value(p[3])->0,
            ),
        )
    } else {
        None
    }
}

proof fn lemma_split_at_first(v: Seq<char>, pos: int, k: int, hi: int, c: char)
    requires
        0 <= pos <= k < hi <= v.len(),
        find_first(v.subrange(pos, hi), c) == Some(k - pos),
    ensures
        split_on(v.subrange(pos, hi), c) == seq![v.subrange(pos, k)] + split_on(
            v.subrange(k + 1, hi),
            c,
        ),
{
    let s = v.subrange(pos, hi);
    assert(s.subrange(0, k - pos) =~= v.subrange(pos, k));
    assert(s.subrange(k - pos + 1, s.len() as int) =~= v.subrange(k + 1, hi));
}

proof fn lemma_split_nonempty(s: Seq<char>, c: char)
    ensures
        split_on(s, c).len() >= 1,
    decreases s.len(),
{
    match find_first(s, c) {
        None => {},
        Some(k) => {
            if 0 <= k < s.len() {
                lemma_split_nonempty(s.subrange(k + 1, s.len() as int), c);
            }
        },
    }
}

/// Parse a decimal octet from `v[lo..hi]`.
fn parse_octet(v: &Vec<char>, lo: usize, hi: usize) -> (r: Option<u8>)
    requires
        lo <= hi <= v@.len(),
    ensures
        r == octet_value(v@.subrange(lo as int, hi as int)),
{
    let ghost s = v@.subrange(lo as int, hi as int);
    if hi - lo < 1 || hi - lo > 3 {
        return None;
    }
    let mut val: u32 = 0;
    let mut i = lo;
    while i < hi
        invariant
            lo <= i <= hi <= v@.len(),
            hi - lo <= 3,
            s == v@.subrange(lo as int, hi as int),
            all_digits(v@.subrange(lo as int, i as int)),
            val == decimal_value(v@.subrange(lo as int, i as int)),
            i - lo == 0 ==> val == 0,
            i - lo == 1 ==> val < 10,
            i - lo == 2 ==> val < 100,
            val < 1000,
        decreases hi - i,
    {
        let ch = v[i];
        if !('0' <= ch && ch <= '9') {
            assert(s[i - lo] == ch);
            return None;
        }
        let ghost prev = v@.subrange(lo as int, i as int);
        assert(v@.subrange(lo as int, i + 1).subrange(0, i - lo) =~= prev);
        val = val * 10 + (ch as u32 - '0' as u32);
        i = i + 1;
        assert(all_digits(v@.subrange(lo as int, i as int))) by {
            assert forall|t: int| 0 <= t < i - lo implies is_digit(
                #[trigger] v@.subrange(lo as int, i as int)[t],
            ) by {
                if t < i - 1 - lo {
                    assert(v@.subrange(lo as int, i as int)[t] == prev[t]);
                }
            }
        }
    }
    assert(v@.subrange(lo as int, i as int) =~= s);
    if hi - lo > 1 && v[lo] == '0' {
        return None;
    }
    if val > 255 {
        return None;
    }
    Some(val as u8)
}

/// Parse one dot-terminated group of a dotted quad starting at `pos`.
fn next_group(v: &Vec<char>, pos: usize, hi: usize) -> (r: Option<(u8, usize)>)
    requires
        pos <= hi <= v@.len(),
    ensures
        match r {
            Some((o, next)) => pos < next <= hi && split_on(v@.subrange(pos as int, hi as int), '.')
                == seq![v@.subrange(pos as int, next - 1)] + split_on(
                v@.subrange(next as int, hi as int),
                '.',
            ) && octet_value(v@.subrange(pos as int, next - 1)) == Some(o),
            None => split_on(v@.subrange(pos as int, hi as int), '.').len() == 1 || octet_value(
                split_on(v@.subrange(pos as int, hi as int), '.')[0],
            ) is None,
        },
{
    match find_char(v, pos, hi, '.') {
        None => {
            assert(split_on(v@.subrange(pos as int, hi as int), '.').len() == 1);
            None
        },
        Some(k) => {
            proof {
                lemma_split_at_first(v@, pos as int, k as int, hi as int, '.');
            }
            match parse_octet(v, pos, k) {
                None => None,
                Some(o) => Some((o, k + 1)),
            }
        },
    }
}

/// Parse the dotted quad in `v[lo..hi]`.
pub fn parse_ipv4(v: &Vec<char>, lo: usize, hi: usize) -> (r: Option<u32>)
    requires
        lo <= hi <= v@.len(),
    ensures
        r == ipv4_value(v@.subrange(lo as int, hi as int)),
{
    let ghost whole = split_on(v@.subrange(lo as int, hi as int), '.');
    let (a, p1) = match next_group(v, lo, hi) {
        None => return None,
        Some(g) => g,
    };
    proof {
        lemma_split_nonempty(v@.subrange(p1 as int, hi as int), '.');
    }
    let (b, p2) = match next_group(v, p1, hi) {
        None => return None,
        Some(g) => g,
    };
    proof {
        lemma_split_nonempty(v@.subrange(p2 as int, hi as int), '.');
    }
    let (c, p3) = match next_group(v, p2, hi) {
        None => return None,
        Some(g) => g,
    };
    proof {
        lemma_split_nonempty(v@.subrange(p3 as int, hi as int), '.');
    }
    match find_char(v, p3, hi, '.') {
        Some(k) => {
            proof {
                lemma_split_at_first(v@, p3 as int, k as int, hi as int, '.');
                lemma_split_nonempty(v@.subrange(k + 1, hi as int), '.');
            }
            return None;
        },
        None => {},
    }
    let d = match parse_octet(v, p3, hi) {
        None => return None,
        Some(d) => d,
    };
    let a32 = a as u32;
    let b32 = b as u32;
    let c32 = c as u32;
    let d32 = d as u32;
    Some(a32 * 16777216 + b32 * 65536 + c32 * 256 + d32)
}

// ─── Unsigned decimal integers ───────────────────────────────

/// Why a decimal integer failed to parse (`core::num::IntErrorKind`).
#[derive(Debug, Clone, Copy, PartialEq, Eq, Structural)]
pub enum IntErrorKind {
    Empty,
    InvalidDigit,
    PosOverflow,
}

/// Left-to-right digit scan with overflow detection, as `u32::from_str` does it.
pub open spec fn scan_u32(d: Seq<char>) -> Result<nat, IntErrorKind>
    decreases d.len(),
{
    if d.len() == 0 {
        Ok(0)
    } else {
        match scan_u32(d.subrange(0, d.len() - 1)) {
            Err(e) => Err(e),
            Ok(r) => if !is_digit(d[d.len() - 1]) {
                Err(IntErrorKind::InvalidDigit)
            } else if r * 10 + digit_value(d[d.len() - 1]) > u32::MAX {
                Err(IntErrorKind::PosOverflow)
            } else {
                Ok(r * 10 + digit_value(d[d.len() - 1]))
            },
        }
    }
}

/// `s.parse::<u32>()`: an optional `+`, then at least one digit, value fitting in 32 bits.
pub open spec fn u32_parse(s: Seq<char>) -> Result<u32, IntErrorKind> {
    if s.len() == 0 {
        Err(IntErrorKind::Empty)
    } else if (s[0] == '+' || s[0] == '-') && s.len() == 1 {
        Err(IntErrorKind::InvalidDigit)
    } else {
        let d = if s[0] == '+' {
            s.subrange(1, s.len() as int)
        } else {
            s
        };
        match scan_u32(d) {
            Ok(n) => Ok(n as u32),
            Err(e) => Err(e),
        }
    }
}

/// The message `ParseIntError` displays for each kind.
pub open spec fn int_error_text(k: IntErrorKind) -> Seq<char> {
    match k {
        IntErrorKind::Empty => "cannot parse integer from empty string"@,
        IntErrorKind::InvalidDigit => "invalid digit found in string"@,
        IntErrorKind::PosOverflow => "number too large to fit in target type"@,
    }
}

proof fn lemma_scan_ok_bounded(d: Seq<char>)
    ensures
        scan_u32(d) matches Ok(n) ==> n <= u32::MAX,
    decreases d.len(),
{
    if d.len() > 0 {
        lemma_scan_ok_bounded(d.subrange(0, d.len() - 1));
    }
}

proof fn lemma_scan_err_extends(d: Seq<char>, i: int)
    requires
        0 <= i <= d.len(),
        scan_u32(d.subrange(0, i)) is Err,
    ensures
        scan_u32(d) == scan_u32(d.subrange(0, i)),
    decreases d.len() - i,
{
    if i == d.len() {
        assert(d.subrange(0, i) =~= d);
    } else {
        assert(d.subrange(0, i + 1).subrange(0, i) =~= d.subrange(0, i));
        lemma_scan_err_extends(d, i + 1);
    }
}

/// Parse an unsigned decimal from `v[lo..hi]` with the error `u32::from_str` reports.
pub fn parse_u32_text(v: &Vec<char>, lo: usize, hi: usize) -> (r: Result<u32, IntErrorKind>)
    requires
        lo <= hi <= v@.len(),
    ensures
        r == u32_parse(v@.subrange(lo as int, hi as int)),
{
    let ghost s = v@.subrange(lo as int, hi as int);
    if lo == hi {
        return Err(IntErrorKind::Empty);
    }
    if (v[lo] == '+' || v[lo] == '-') && hi - lo == 1 {
        return Err(IntErrorKind::InvalidDigit);
    }
    let start = if v[lo] == '+' {
        lo + 1
    } else {
        lo
    };
    let ghost d = v@.subrange(start as int, hi as int);
    assert(d =~= (if s[0] == '+' {
        s.subrange(1, s.len() as int)
    } else {
        s
    }));
    let mut acc: u64 = 0;
    let mut i = start;
    while i < hi
        invariant
            lo <= start <= i <= hi <= v@.len(),
            d == v@.subrange(start as int, hi as int),
            u32_parse(v@.subrange(lo as int, hi as int)) == match scan_u32(d) {
                Ok(n) => Ok::<u32, IntErrorKind>(n as u32),
                Err(e) => Err(e),
            },
            scan_u32(d.subrange(0, i - start)) == Ok::<nat, IntErrorKind>(acc as nat),
            acc <= u32::MAX,
        decreases hi - i,
    {
        let ch = v[i];
        let ghost pre = d.subrange(0, i - start);
        assert(d.subrange(0, i + 1 - start).subrange(0, i - start) =~= pre);
        assert(d.subrange(0, i + 1 - start)[i - start] == ch);
        if !('0' <= ch && ch <= '9') {
            proof {
                assert(scan_u32(d.subrange(0, i + 1 - start)) == Err::<nat, IntErrorKind>(
                    IntErrorKind::InvalidDigit,
                ));
                lemma_scan_err_extends(d, i + 1 - start);
            }
            return Err(IntErrorKind::InvalidDigit);
        }
        let next = acc * 10 + (ch as u64 - '0' as u64);
        if next > 4294967295 {
            proof {
                assert(scan_u32(d.subrange(0, i + 1 - start)) == Err::<nat, IntErrorKind>(
                    IntErrorKind::PosOverflow,
                ));
                lemma_scan_err_extends(d, i + 1 - start);
            }
            return Err(IntErrorKind::PosOverflow);
        }
        acc = next;
        i = i + 1;
    }
    assert(d.subrange(0, i - start) =~= d);
    Ok(acc as u32)
}

/// Left-to-right digit scan with overflow detection, as `u64::from_str` does it.
pub open spec fn scan_u64(d: Seq<char>) -> Result<nat, IntErrorKind>
    decreases d.len(),
{
    if d.len() == 0 {
        Ok(0)
    } else {
        match scan_u64(d.subrange(0, d.len() - 1)) {
            Err(e) => Err(e),
            Ok(r) => if !is_digit(d[d.len() - 1]) {
                Err(IntErrorKind::InvalidDigit)
            } else if r * 10 + digit_value(d[d.len() - 1]) > u64::MAX {
                Err(IntErrorKind::PosOverflow)
            } else {
                Ok(r * 10 + digit_value(d[d.len() - 1]))
            },
        }
    }
}

/// `s.parse::<u64>()`: an optional `+`, then at least one digit, value fitting in 64 bits.
pub open spec fn u64_parse(s: Seq<char>) -> Result<u64, IntErrorKind> {
    if s.len() == 0 {
        Err(IntErrorKind::Empty)
    } else if (s[0] == '+' || s[0] == '-') && s.len() == 1 {
        Err(IntErrorKind::InvalidDigit)
    } else {
        let d = if s[0] == '+' {
            s.subrange(1, s.len() as int)
        } else {
            s
        };
        match scan_u64(d) {
            Ok(n) => Ok(n as u64),
            Err(e) => Err(e),
        }
    }
}

proof fn lemma_scan64_ok_bounded(d: Seq<char>)
    ensures
        scan_u64(d) matches Ok(n) ==> n <= u64::MAX,
    decreases d.len(),
{
    if d.len() > 0 {
        lemma_scan64_ok_bounded(d.subrange(0, d.len() - 1));
    }
}

proof fn lemma_scan64_err_extends(d: Seq<char>, i: int)
    requires
        0 <= i <= d.len(),
        scan_u64(d.subrange(0, i)) is Err,
    ensures
        scan_u64(d) == scan_u64(d.subrange(0, i)),
    decreases d.len() - i,
{
    if i == d.len() {
        assert(d.subrange(0, i) =~= d);
    } else {
        assert(d.subrange(0, i + 1).subrange(0, i) =~= d.subrange(0, i));
        lemma_scan64_err_extends(d, i + 1);
    }
}

/// The 64-bit scan of a number's decimal text gives the number.
proof fn lemma_scan64_decimal(n: nat)
    requires
        n <= u64::MAX,
    ensures
        scan_u64(decimal_text(n)) == Ok::<nat, IntErrorKind>(n),
    decreases n,
{
    crate::text::lemma_digit_char(n % 10);
    if n < 10 {
        let u = seq![crate::text::digit_char(n)];
        assert(u.subrange(0, 0) =~= Seq::<char>::empty());
        assert(scan_u64(u.subrange(0, 0)) == Ok::<nat, IntErrorKind>(0));
        assert(decimal_text(n) == u);
    } else {
        lemma_scan64_decimal(n / 10);
        let t = decimal_text(n / 10);
        let u = t.push(crate::text::digit_char(n % 10));
        assert(u.subrange(0, u.len() - 1) =~= t);
        assert((n / 10) * 10 + n % 10 == n);
        assert(decimal_text(n) == u);
    }
}

/// The 32-bit scan of a number's decimal text gives the number.
proof fn lemma_scan32_decimal(n: nat)
    requires
        n <= u32::MAX,
    ensures
        scan_u32(decimal_text(n)) == Ok::<nat, IntErrorKind>(n),
    decreases n,
{
    crate::text::lemma_digit_char(n % 10);
    if n < 10 {
        let u = seq![crate::text::digit_char(n)];
        assert(u.subrange(0, 0) =~= Seq::<char>::empty());
        assert(scan_u32(u.subrange(0, 0)) == Ok::<nat, IntErrorKind>(0));
        assert(decimal_text(n) == u);
    } else {
        lemma_scan32_decimal(n / 10);
        let t = decimal_text(n / 10);
        let u = t.push(crate::text::digit_char(n % 10));
        assert(u.subrange(0, u.len() - 1) =~= t);
        assert((n / 10) * 10 + n % 10 == n);
        assert(decimal_text(n) == u);
    }
}

/// Parsing the decimal text of a number gives the number back.
pub proof fn lemma_parse_decimal_text(n: nat)
    ensures
        n <= u64::MAX ==> u64_parse(decimal_text(n)) == Ok::<u64, IntErrorKind>(n as u64),
        n <= u32::MAX ==> u32_parse(decimal_text(n)) == Ok::<u32, IntErrorKind>(n as u32),
{
    crate::text::lemma_decimal_text(n);
    let t = decimal_text(n);
    assert(crate::text::is_digit(t[0]));
    if n <= u64::MAX {
        lemma_scan64_decimal(n);
    }
    if n <= u32::MAX {
        lemma_scan32_decimal(n);
    }
}

/// Parse an unsigned decimal from `v[lo..hi]` with the error `u64::from_str` reports.
pub fn parse_u64_text(v: &Vec<char>, lo: usize, hi: usize) -> (r: Result<u64, IntErrorKind>)
    requires
        lo <= hi <= v@.len(),
    ensures
        r == u64_parse(v@.subrange(lo as int, hi as int)),
{
    let ghost s = v@.subrange(lo as int, hi as int);
    if lo == hi {
        return Err(IntErrorKind::Empty);
    }
    if (v[lo] == '+' || v[lo] == '-') && hi - lo == 1 {
        return Err(IntErrorKind::InvalidDigit);
    }
    let start = if v[lo] == '+' {
        lo + 1
    } else {
        lo
    };
    let ghost d = v@.subrange(start as int, hi as int);
    assert(d =~= (if s[0] == '+' {
        s.subrange(1, s.len() as int)
    } else {
        s
    }));
    let mut acc: u128 = 0;
    let mut i = start;
    while i < hi
        invariant
            lo <= start <= i <= hi <= v@.len(),
            d == v@.subrange(start as int, hi as int),
            u64_parse(v@.subrange(lo as int, hi as int)) == match scan_u64(d) {
                Ok(n) => Ok::<u64, IntErrorKind>(n as u64),
                Err(e) => Err(e),
            },
            scan_u64(d.subrange(0, i - start)) == Ok::<nat, IntErrorKind>(acc as nat),
            acc <= u64::MAX,
        decreases hi - i,
    {
        let ch = v[i];
        let ghost pre = d.subrange(0, i - start);
        assert(d.subrange(0, i + 1 - start).subrange(0, i - start) =~= pre);
        assert(d.subrange(0, i + 1 - start)[i - start] == ch);
        if !('0' <= ch && ch <= '9') {
            proof {
                assert(scan_u64(d.subrange(0, i + 1 - start)) == Err::<nat, IntErrorKind>(
                    IntErrorKind::InvalidDigit,
                ));
                lemma_scan64_err_extends(d, i + 1 - start);
            }
            return Err(IntErrorKind::InvalidDigit);
        }
        let next = acc * 10 + (ch as u128 - '0' as u128);
        if next > 18446744073709551615 {
            proof {
                assert(scan_u64(d.subrange(0, i + 1 - start)) == Err::<nat, IntErrorKind>(
                    IntErrorKind::PosOverflow,
                ));
                lemma_scan64_err_extends(d, i + 1 - start);
            }
            return Err(IntErrorKind::PosOverflow);
        }
        acc = next;
        i = i + 1;
    }
    assert(d.subrange(0, i - start) =~= d);
    Ok(acc as u64)
}

// ─── CIDR ────────────────────────────────────────────────────

/// The network mask of a prefix length `p <= 32`.
pub open spec fn cidr_mask(p: u32) -> u32 {
    if p == 0 {
        0
    } else {
        (0xffff_ffffu32 << ((32 - p) as u32)) as u32
    }
}

/// What `parse_cidr` gives: the covered range, or the error message.
pub open spec fn cidr_parse(s: Seq<char>) -> Result<(u32, u32), Seq<char>> {
    let parts = split_on(s, '/');
    if parts.len() != 2 {
        Err("Invalid CIDR: "@ + s)
    } else {
        match ipv4_value(parts[0]) {
            None => Err("Invalid IP in CIDR: invalid IPv4 address syntax"@),
            Some(base) => match u32_parse(parts[1]) {
                Err(k) => Err("Invalid prefix length: "@ + int_error_text(k)),
                Ok(p) => if p > 32 {
                    Err("Prefix length "@ + decimal_text(p as nat) + " > 32"@)
                } else {
                    Ok((base & cidr_mask(p), (base & cidr_mask(p)) | !cidr_mask(p)))
                },
            },
        }
    }
}

fn int_error_message(k: IntErrorKind) -> (r: &'static str)
    ensures
        r@ == int_error_text(k),
{
    match k {
        IntErrorKind::Empty => "cannot parse integer from empty string",
        IntErrorKind::InvalidDigit => "invalid digit found in string",
        IntErrorKind::PosOverflow => "number too large to fit in target type",
    }
}

/// Parse a CIDR notation string (e.g. "192.168.1.0/24") into the range it covers.
pub fn parse_cidr(cidr: &str) -> (r: Result<IpRange, String>)
    ensures
        match cidr_parse(cidr@) {
            Ok((s, e)) => r == Ok::<IpRange, String>(IpRange { start: s, end: e }),
            Err(m) => r matches Err(msg) && msg@ == m,
        },
        r matches Ok(rg) ==> rg.start <= rg.end,
{
    let v = chars_of(cidr);
    let n = v.len();
    let k = match find_char(&v, 0, n, '/') {
        None => {
            assert(v@.subrange(0, n as int) =~= v@);
            let mut msg = String::from_str("Invalid CIDR: ");
            msg.append(cidr);
            return Err(msg);
        },
        Some(k) => k,
    };
    assert(v@.subrange(0, n as int) =~= v@);
    proof {
        lemma_split_at_first(v@, 0, k as int, n as int, '/');
    }
    match find_char(&v, k + 1, n, '/') {
        Some(k2) => {
            proof {
                lemma_split_at_first(v@, k + 1, k2 as int, n as int, '/');
                lemma_split_nonempty(v@.subrange(k2 + 1, n as int), '/');
            }
            let mut msg = String::from_str("Invalid CIDR: ");
            msg.append(cidr);
            return Err(msg);
        },
        None => {},
    }
    let base = match parse_ipv4(&v, 0, k) {
        None => {
            return Err(String::from_str("Invalid IP in CIDR: invalid IPv4 address syntax"));
        },
        Some(b) => b,
    };
    let prefix_len = match parse_u32_text(&v, k + 1, n) {
        Err(e) => {
            let mut msg = String::from_str("Invalid prefix length: ");
            msg.append(int_error_message(e));
            return Err(msg);
        },
        Ok(p) => p,
    };
    if prefix_len > 32 {
        let mut msg = String::from_str("Prefix length ");
        let num = decimal_string(prefix_len as u64);
        msg.append(num.as_str());
        msg.append(" > 32");
        return Err(msg);
    }
    let mask: u32 = if prefix_len == 0 {
        0
    } else {
        0xffff_ffffu32 << (32 - prefix_len)
    };
    let start = base & mask;
    let end = start | !mask;
    assert(start <= (start | !mask)) by (bit_vector);
    Ok(IpRange { start, end })
}

// ─── Blocklist files ─────────────────────────────────────────

/// A PeerGuardian line "Description:start_ip-end_ip" (after trimming; blank
/// lines and `#` comments give nothing). The addresses follow the last `:`
/// and are split at the first `-`; each side is trimmed.
pub open spec fn dat_line_range(raw: Seq<char>) -> Option<IpRange> {
    let line = trim(raw);
    if line.len() == 0 || line[0] == '#' {
        None
    } else {
        match find_last(line, ':') {
            None => None,
            Some(c) => {
                let ip = line.subrange(c + 1, line.len() as int);
                match find_first(ip, '-') {
                    None => None,
                    Some(d) => match (
                        ipv4_value(trim(ip.subrange(0, d))),
                        ipv4_value(trim(ip.subrange(d + 1, ip.len() as int))),
                    ) {
                        (Some(a), Some(b)) => Some(IpRange { start: a, end: b }),
                        _ => None,
                    },
                }
            },
        }
    }
}

/// An eMule line "start_ip - end_ip , level , description" (after trimming;
/// blank lines and `#` comments give nothing). The text before the first `,`
/// is trimmed and split at the first " - "; each side is trimmed.
pub open spec fn p2p_line_range(raw: Seq<char>) -> Option<IpRange> {
    let line = trim(raw);
    if line.len() == 0 || line[0] == '#' {
        None
    } else {
        let first = match find_first(line, ',') {
            Some(k) => line.subrange(0, k),
            None => line,
        };
        let ipr = trim(first);
        match find_first_seq(ipr, " - "@) {
            None => None,
            Some(d) => match (
                ipv4_value(trim(ipr.subrange(0, d))),
                ipv4_value(trim(ipr.subrange(d + 3, ipr.len() as int))),
            ) {
                (Some(a), Some(b)) => Some(IpRange { start: a, end: b }),
                _ => None,
            },
        }
    }
}

/// The range one line gives, in either format.
pub open spec fn line_range(raw: Seq<char>, p2p: bool) -> Option<IpRange> {
    if p2p {
        p2p_line_range(raw)
    } else {
        dat_line_range(raw)
    }
}

/// The ranges that a sequence of lines gives, in order; lines that do not parse are skipped.
pub open spec fn ranges_of_lines(lines: Seq<Seq<char>>, p2p: bool) -> Seq<IpRange>
    decreases lines.len(),
{
    if lines.len() == 0 {
        seq![]
    } else {
        let prev = ranges_of_lines(lines.subrange(0, lines.len() - 1), p2p);
        match line_range(lines[lines.len() - 1], p2p) {
            Some(r) => prev.push(r),
            None => prev,
        }
    }
}

/// The ranges a blocklist file's content gives.
pub open spec fn blocklist_ranges(content: Seq<char>, p2p: bool) -> Seq<IpRange> {
    ranges_of_lines(split_on(content, '\n'), p2p)
}

proof fn lemma_trim_sub(v: Seq<char>, a: int, b: int, lo: int, hi: int)
    requires
        0 <= lo <= a <= b <= hi <= v.len(),
    ensures
        v.subrange(lo, hi).subrange(a - lo, b - lo) == v.subrange(a, b),
{
    assert(v.subrange(lo, hi).subrange(a - lo, b - lo) =~= v.subrange(a, b));
}

fn dat_line(v: &Vec<char>, lo: usize, hi: usize) -> (r: Option<IpRange>)
    requires
        lo <= hi <= v@.len(),
    ensures
        r == dat_line_range(v@.subrange(lo as int, hi as int)),
{
    let (a, b) = trim_range(v, lo, hi);
    let ghost line = v@.subrange(a as int, b as int);
    if a == b || v[a] == '#' {
        return None;
    }
    let c = match rfind_char(v, a, b, ':') {
        None => return None,
        Some(c) => c,
    };
    let ghost ip = line.subrange(c - a + 1, line.len() as int);
    assert(ip =~= v@.subrange(c + 1, b as int));
    let d = match find_char(v, c + 1, b, '-') {
        None => return None,
        Some(d) => d,
    };
    assert(ip.subrange(0, d - c - 1) =~= v@.subrange(c + 1, d as int));
    assert(ip.subrange(d - c - 1 + 1, ip.len() as int) =~= v@.subrange(d + 1, b as int));
    let (s1, e1) = trim_range(v, c + 1, d);
    let (s2, e2) = trim_range(v, d + 1, b);
    let x = parse_ipv4(v, s1, e1);
    let y = parse_ipv4(v, s2, e2);
    match (x, y) {
        (Some(start), Some(end)) => Some(IpRange { start, end }),
        _ => None,
    }
}

fn p2p_line(v: &Vec<char>, lo: usize, hi: usize, sep: &Vec<char>) -> (r: Option<IpRange>)
    requires
        lo <= hi <= v@.len(),
        sep@ == " - "@,
    ensures
        r == p2p_line_range(v@.subrange(lo as int, hi as int)),
{
    proof {
        reveal_strlit(" - ");
    }
    let (a, b) = trim_range(v, lo, hi);
    let ghost line = v@.subrange(a as int, b as int);
    if a == b || v[a] == '#' {
        return None;
    }
    let f = match find_char(v, a, b, ',') {
        Some(k) => {
            assert(line.subrange(0, k - a) =~= v@.subrange(a as int, k as int));
            k
        },
        None => b,
    };
    let (s, e) = trim_range(v, a, f);
    let ghost ipr = v@.subrange(s as int, e as int);
    let d = match find_seq(v, s, e, sep) {
        None => return None,
        Some(d) => d,
    };
    assert(ipr.subrange(0, d - s) =~= v@.subrange(s as int, d as int));
    assert(ipr.subrange(d - s + 3, ipr.len() as int) =~= v@.subrange(d + 3, e as int));
    let (s1, e1) = trim_range(v, s, d);
    let (s2, e2) = trim_range(v, d + 3, e);
    let x = parse_ipv4(v, s1, e1);
    let y = parse_ipv4(v, s2, e2);
    match (x, y) {
        (Some(start), Some(end)) => Some(IpRange { start, end }),
        _ => None,
    }
}

/// Parse every line of a blocklist's content.
fn parse_lines(content: &str, p2p: bool) -> (r: Vec<IpRange>)
    ensures
        r@ == blocklist_ranges(content@, p2p),
{
    let v = chars_of(content);
    let sep = chars_of(" - ");
    let n = v.len();
    let mut out: Vec<IpRange> = Vec::new();
    let ghost mut done: Seq<Seq<char>> = seq![];
    let mut pos: usize = 0;
    assert(v@.subrange(0, n as int) =~= v@);
    loop
        invariant
            pos <= n == v@.len(),
            v@ == content@,
            sep@ == " - "@,
            split_on(content@, '\n') == done + split_on(v@.subrange(pos as int, n as int), '\n'),
            out@ == ranges_of_lines(done, p2p),
        decreases n - pos,
    {
        let end = find_char(&v, pos, n, '\n');
        let line_end = match end {
            Some(k) => k,
            None => n,
        };
        let item = if p2p {
            p2p_line(&v, pos, line_end, &sep)
        } else {
            dat_line(&v, pos, line_end)
        };
        let ghost line = v@.subrange(pos as int, line_end as int);
        proof {
            assert((done.push(line)).subrange(0, done.len() as int) =~= done);
        }
        match item {
            Some(r) => out.push(r),
            None => {},
        }
        match end {
            None => {
                proof {
                    assert(split_on(v@.subrange(pos as int, n as int), '\n') == seq![line]);
                    assert(done + seq![line] =~= done.push(line));
                    done = done.push(line);
                    assert(split_on(content@, '\n') == done);
                }
                return out;
            },
            Some(k) => {
                proof {
                    lemma_split_at_first(v@, pos as int, k as int, n as int, '\n');
                    assert(done + (seq![line] + split_on(v@.subrange(k + 1, n as int), '\n'))
                        =~= done.push(line) + split_on(v@.subrange(k + 1, n as int), '\n'));
                    done = done.push(line);
                }
                pos = k + 1;
            },
        }
    }
}

/// Parse the content of a PeerGuardian .dat blocklist.
pub fn parse_dat_file(content: &str) -> (r: Vec<IpRange>)
    ensures
        r@ == blocklist_ranges(content@, false),
{
    parse_lines(content, false)
}

/// Parse the content of an eMule .p2p blocklist.
pub fn parse_p2p_file(content: &str) -> (r: Vec<IpRange>)
    ensures
        r@ == blocklist_ranges(content@, true),
{
    parse_lines(content, true)
}

} // verus!
