//! Magnet link helpers: the info hash and display name carried in a magnet URI.

use vstd::prelude::*;

use crate::text::{
    chars_of, contains_in, contains_seq, find_char, find_first_seq, find_seq, has_prefix,
    lowercase, split_on, starts_with_at, to_lowercase,
};

verus! {

/// The first of `parts` that contains `n`.
pub open spec fn first_part_containing(parts: Seq<Seq<char>>, n: Seq<char>) -> Option<Seq<char>>
    decreases parts.len(),
{
    if parts.len() == 0 {
        None
    } else if contains_seq(parts[0], n) {
        Some(parts[0])
    } else {
        first_part_containing(parts.drop_first(), n)
    }
}

/// `s.split(sep).nth(1)`: the text after the first `sep`, up to the next one
/// (or the end); `None` when `sep` does not occur.
pub open spec fn second_piece(s: Seq<char>, sep: Seq<char>) -> Option<Seq<char>> {
    match find_first_seq(s, sep) {
        Some(k) => {
            let rest = s.subrange(k + sep.len(), s.len() as int);
            match find_first_seq(rest, sep) {
                Some(j) => Some(rest.subrange(0, j)),
                None => Some(rest),
            }
        },
        None => None,
    }
}

/// The info hash text of a magnet URI, before case folding: the text after
/// `btih:` in the first `&`-separated part that holds `xt=urn:btih:`. Sources
/// that are not magnet URIs (torrent file paths) have none.
pub open spec fn magnet_hash_text(source: Seq<char>) -> Option<Seq<char>> {
    if has_prefix(source, "magnet:"@) {
        match first_part_containing(split_on(source, '&'), "xt=urn:btih:"@) {
            Some(p) => second_piece(p, "btih:"@),
            None => None,
        }
    } else {
        None
    }
}

/// The still-encoded display name of a magnet URI: the text after the first
/// `=` of the first `&`-separated part that holds `dn=`.
pub open spec fn magnet_name_text(magnet: Seq<char>) -> Option<Seq<char>> {
    match first_part_containing(split_on(magnet, '&'), "dn="@) {
        Some(p) => second_piece(p, "="@),
        None => None,
    }
}

/// What `urlencoding::decode` gives for `s`: the percent-decoded text, or
/// `None` where the decoded bytes are not valid UTF-8.
pub uninterp spec fn url_decoded(s: Seq<char>) -> Option<Seq<char>>;

/// `urlencoding::decode`, with the `Cow` made owned and the UTF-8 error made
/// `None`. The contract names the result and states what the crate's source
/// shows plainly: text without a `%` comes back unchanged.
#[verifier::external_body]
fn url_decode(s: &str) -> (r: Option<String>)
    ensures
        r is Some ==> url_decoded(s@) == Some(r->0@),
        r is None ==> url_decoded(s@) is None,
        !s@.contains('%') ==> r is Some && r->0@ == s@,
{
    match urlencoding::decode(s) {
        Ok(c) => Some(c.into_owned()),
        Err(_) => None,
    }
}

/// Whether `c` is left as it is by percent-encoding: an ASCII letter or digit,
/// or one of `-`, `.`, `_`, `~`.
pub open spec fn is_unreserved(c: char) -> bool {
    ('0' <= c && c <= '9') || ('A' <= c && c <= 'Z') || ('a' <= c && c <= 'z') || c == '-' || c == '.'
        || c == '_' || c == '~'
}

/// The UTF-8 bytes of a character.
pub open spec fn utf8_bytes(c: char) -> Seq<u8> {
    let n = c as int;
    if n < 0x80 {
        seq![n as u8]
    } else if n < 0x800 {
        seq![(0xC0 + n / 64) as u8, (0x80 + n % 64) as u8]
    } else if n < 0x10000 {
        seq![(0xE0 + n / 4096) as u8, (0x80 + (n / 64) % 64) as u8, (0x80 + n % 64) as u8]
    } else {
        seq![
            (0xF0 + n / 262144) as u8,
            (0x80 + (n / 4096) % 64) as u8,
            (0x80 + (n / 64) % 64) as u8,
            (0x80 + n % 64) as u8,
        ]
    }
}

/// An upper-case hexadecimal digit for `d < 16`.
pub open spec fn hex_digit(d: int) -> char {
    if d < 10 {
        (48 + d) as char
    } else {
        (55 + d) as char
    }
}

/// One byte percent-encoded: an unreserved ASCII byte stays, any other becomes
/// `%` and two upper-case hexadecimal digits.
pub open spec fn encoded_byte(b: u8) -> Seq<char> {
    if is_unreserved(b as char) {
        seq![b as char]
    } else {
        seq!['%', hex_digit(b as int / 16), hex_digit(b as int % 16)]
    }
}

/// The bytes percent-encoded one after the other.
pub open spec fn encoded_bytes(bs: Seq<u8>) -> Seq<char>
    decreases bs.len(),
{
    if bs.len() == 0 {
        seq![]
    } else {
        encoded_bytes(bs.drop_last()) + encoded_byte(bs.last())
    }
}

/// What `urlencoding::encode` gives for `s`: each UTF-8 byte of each character
/// percent-encoded, in order.
pub open spec fn url_encoded(s: Seq<char>) -> Seq<char>
    decreases s.len(),
{
    if s.len() == 0 {
        seq![]
    } else {
        url_encoded(s.drop_last()) + encoded_bytes(utf8_bytes(s.last()))
    }
}

/// `urlencoding::encode`, made owned: every UTF-8 byte of `s` outside the
/// unreserved set becomes `%XX` with upper-case hexadecimal digits; the
/// contract states that result and, as a plain consequence, that text made
/// only of unreserved characters comes back unchanged.
#[verifier::external_body]
pub(crate) fn url_encode(s: &str) -> (r: String)
    ensures
        r@ == url_encoded(s@),
        (forall|i: int| 0 <= i < s@.len() ==> is_unreserved(#[trigger] s@[i])) ==> r@ == s@,
{
    urlencoding::encode(s).into_owned()
}

/// The decoded name, or the empty text where decoding fails.
pub open spec fn decoded_or_empty(s: Seq<char>) -> Seq<char> {
    match url_decoded(s) {
        Some(d) => d,
        None => seq![],
    }
}

proof fn lemma_first_part_step(line: Seq<char>, rest: Seq<Seq<char>>, n: Seq<char>)
    ensures
        first_part_containing(seq![line] + rest, n) == if contains_seq(line, n) {
            Some(line)
        } else {
            first_part_containing(rest, n)
        },
{
    let all = seq![line] + rest;
    assert(all[0] == line);
    assert(all.drop_first() =~= rest);
}

/// The char range of the first `&`-separated part of `v` containing `n`.
fn find_part(v: &Vec<char>, n: &Vec<char>) -> (r: Option<(usize, usize)>)
    ensures
        match r {
            Some((a, b)) => a <= b <= v@.len() && first_part_containing(split_on(v@, '&'), n@)
                == Some(v@.subrange(a as int, b as int)),
            None => first_part_containing(split_on(v@, '&'), n@) is None,
        },
{
    let len = v.len();
    let mut pos: usize = 0;
    assert(v@.subrange(0, len as int) =~= v@);
    loop
        invariant
            pos <= len == v@.len(),
            first_part_containing(split_on(v@, '&'), n@) == first_part_containing(
                split_on(v@.subrange(pos as int, len as int), '&'),
                n@,
            ),
        decreases len - pos,
    {
        let end = find_char(v, pos, len, '&');
        let line_end = match end {
            Some(k) => k,
            None => len,
        };
        let ghost line = v@.subrange(pos as int, line_end as int);
        let found = contains_in(v, pos, line_end, n);
        match end {
            Some(k) => {
                proof {
                    crate::text::lemma_split_step(v@, pos as int, k as int, len as int, '&');
                    lemma_first_part_step(line, split_on(v@.subrange(k + 1, len as int), '&'), n@);
                }
                if found {
                    return Some((pos, k));
                }
                pos = k + 1;
            },
            None => {
                proof {
                    assert(split_on(v@.subrange(pos as int, len as int), '&') == seq![line]);
                    lemma_first_part_step(line, seq![], n@);
                    assert(seq![line] + Seq::<Seq<char>>::empty() =~= seq![line]);
                }
                if found {
                    return Some((pos, len));
                }
                return None;
            },
        }
    }
}

/// The char range of `split(sep).nth(1)` within `v[a..b]`.
fn second_piece_range(v: &Vec<char>, a: usize, b: usize, sep: &Vec<char>) -> (r: Option<(usize, usize)>)
    requires
        a <= b <= v@.len(),
    ensures
        match r {
            Some((c, d)) => c <= d <= v@.len() && second_piece(v@.subrange(a as int, b as int), sep@)
                == Some(v@.subrange(c as int, d as int)),
            None => second_piece(v@.subrange(a as int, b as int), sep@) is None,
        },
{
    let ghost p = v@.subrange(a as int, b as int);
    match find_seq(v, a, b, sep) {
        None => None,
        Some(k) => {
            let from = k + sep.len();
            let ghost rest = p.subrange(k - a + sep@.len(), p.len() as int);
            assert(rest =~= v@.subrange(from as int, b as int));
            match find_seq(v, from, b, sep) {
                Some(j) => {
                    assert(rest.subrange(0, j - from) =~= v@.subrange(from as int, j as int));
                    Some((from, j))
                },
                None => Some((from, b)),
            }
        },
    }
}

/// The info hash of a magnet URI, lower-cased; `None` for a torrent file path
/// or a magnet URI without an `xt=urn:btih:` part.
pub fn extract_info_hash(source: &str) -> (r: Option<String>)
    ensures
        match r {
            Some(h) => magnet_hash_text(source@) matches Some(t) && h@ == lowercase(t),
            None => magnet_hash_text(source@) is None,
        },
{
    let v = chars_of(source);
    if !starts_with_at(&v, 0, v.len(), "magnet:") {
        assert(v@.subrange(0, v@.len() as int) =~= v@);
        return None;
    }
    assert(v@.subrange(0, v@.len() as int) =~= v@);
    let needle = chars_of("xt=urn:btih:");
    match find_part(&v, &needle) {
        None => None,
        Some((a, b)) => {
            let sep = chars_of("btih:");
            match second_piece_range(&v, a, b, &sep) {
                None => None,
                Some((c, d)) => {
                    let text = source.substring_char(c, d);
                    Some(to_lowercase(text))
                },
            }
        },
    }
}

/// The info hash of a download source: a magnet URI's hash, lower-cased;
/// `None` for a torrent file path.
pub fn extract_info_hash_from_source(source: &str) -> (r: Option<String>)
    ensures
        match r {
            Some(h) => magnet_hash_text(source@) matches Some(t) && h@ == lowercase(t),
            None => magnet_hash_text(source@) is None,
        },
{
    extract_info_hash(source)
}

/// The display name (`dn=`) of a magnet URI, percent-decoded; the empty name
/// where decoding fails, `None` where the URI carries no name.
pub fn extract_magnet_name(magnet: &str) -> (r: Option<String>)
    ensures
        match r {
            Some(name) => magnet_name_text(magnet@) matches Some(t) && name@ == decoded_or_empty(t),
            None => magnet_name_text(magnet@) is None,
        },
{
    let v = chars_of(magnet);
    let needle = chars_of("dn=");
    match find_part(&v, &needle) {
        None => None,
        Some((a, b)) => {
            let sep = chars_of("=");
            match second_piece_range(&v, a, b, &sep) {
                None => None,
                Some((c, d)) => {
                    let text = magnet.substring_char(c, d);
                    match url_decode(text) {
                        Some(d) => Some(d),
                        None => Some(String::new()),
                    }
                },
            }
        },
    }
}

} // verus!
