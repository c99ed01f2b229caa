//! Character-level text utilities shared by the parsers.
//!
//! Scanning works on a `Vec<char>` read once from the input and on index
//! ranges into it, so that long inputs are never copied line by line.

use vstd::prelude::*;

verus! {

broadcast use vstd::string::group_string_axioms;

/// The characters of a string, in order.
pub fn chars_of(s: &str) -> (v: Vec<char>)
    ensures
        v@ == s@,
{
    let mut v: Vec<char> = Vec::new();
    for c in it: s.chars()
        invariant
            v@ == it.seq().take(it.index() as int),
    {
        v.push(c);
    }
    v
}

// ─── Whitespace and trimming ─────────────────────────────────

/// Unicode `White_Space`, the set `char::is_whitespace` accepts.
pub open spec fn is_ws(c: char) -> bool {
    ('\u{9}' <= c && c <= '\u{d}') || c == ' ' || c == '\u{85}' || c == '\u{a0}' || c
        == '\u{1680}' || ('\u{2000}' <= c && c <= '\u{200a}') || c == '\u{2028}' || c
        == '\u{2029}' || c == '\u{202f}' || c == '\u{205f}' || c == '\u{3000}'
}

/// Whether `c` is Unicode whitespace.
pub fn is_whitespace(c: char) -> (r: bool)
    ensures
        r == is_ws(c),
{
    ('\u{9}' <= c && c <= '\u{d}') || c == ' ' || c == '\u{85}' || c == '\u{a0}' || c
        == '\u{1680}' || ('\u{2000}' <= c && c <= '\u{200a}') || c == '\u{2028}' || c
        == '\u{2029}' || c == '\u{202f}' || c == '\u{205f}' || c == '\u{3000}'
}

/// `s` without its leading whitespace.
pub open spec fn trim_start(s: Seq<char>) -> Seq<char>
    decreases s.len(),
{
    if s.len() > 0 && is_ws(s[0]) {
        trim_start(s.subrange(1, s.len() as int))
    } else {
        s
    }
}

/// `s` without its trailing whitespace.
pub open spec fn trim_end(s: Seq<char>) -> Seq<char>
    decreases s.len(),
{
    if s.len() > 0 && is_ws(s[s.len() - 1]) {
        trim_end(s.subrange(0, s.len() - 1))
    } else {
        s
    }
}

/// `s` without leading and trailing whitespace (`str::trim`).
pub open spec fn trim(s: Seq<char>) -> Seq<char> {
    trim_end(trim_start(s))
}

/// The bounds of `v[lo..hi]` once trimmed.
pub fn trim_range(v: &Vec<char>, lo: usize, hi: usize) -> (r: (usize, usize))
    requires
        lo <= hi <= v@.len(),
    ensures
        lo <= r.0 <= r.1 <= hi,
        v@.subrange(r.0 as int, r.1 as int) == trim(v@.subrange(lo as int, hi as int)),
{
    let mut a = lo;
    while a < hi && is_whitespace(v[a])
        invariant
            lo <= a <= hi <= v@.len(),
            trim_start(v@.subrange(lo as int, hi as int)) == trim_start(
                v@.subrange(a as int, hi as int),
            ),
        decreases hi - a,
    {
        assert(v@.subrange(a as int, hi as int).subrange(1, (hi - a) as int) =~= v@.subrange(
            a + 1,
            hi as int,
        ));
        a = a + 1;
    }
    assert(trim_start(v@.subrange(a as int, hi as int)) == v@.subrange(a as int, hi as int));
    let mut b = hi;
    while b > a && is_whitespace(v[b - 1])
        invariant
            lo <= a <= b <= hi <= v@.len(),
            trim(v@.subrange(lo as int, hi as int)) == trim_end(v@.subrange(a as int, b as int)),
        decreases b - a,
    {
        assert(v@.subrange(a as int, b as int).subrange(0, (b - a - 1) as int) =~= v@.subrange(
            a as int,
            b - 1,
        ));
        b = b - 1;
    }
    (a, b)
}

// ─── Searching ──────────────────────────────────────────────

/// `k` is the first position in `lo..hi` holding `c`.
pub open spec fn first_at(s: Seq<char>, lo: int, hi: int, c: char, k: int) -> bool {
    lo <= k < hi && s[k] == c && forall|j: int| lo <= j < k ==> s[j] != c
}

/// No position in `lo..hi` holds `c`.
pub open spec fn absent_in(s: Seq<char>, lo: int, hi: int, c: char) -> bool {
    forall|j: int| lo <= j < hi ==> s[j] != c
}

/// The index of the first `c` in `s` (`str::find` with a char).
pub open spec fn find_first(s: Seq<char>, c: char) -> Option<int> {
    if exists|k: int| first_at(s, 0, s.len() as int, c, k) {
        Some(choose|k: int| first_at(s, 0, s.len() as int, c, k))
    } else {
        None
    }
}

/// The index of the last `c` in `s` (`str::rfind` with a char).
pub open spec fn find_last(s: Seq<char>, c: char) -> Option<int> {
    if exists|k: int| last_at(s, 0, s.len() as int, c, k) {
        Some(choose|k: int| last_at(s, 0, s.len() as int, c, k))
    } else {
        None
    }
}

/// The index of the first occurrence of `n` in `s` (`str::find` with a string).
pub open spec fn find_first_seq(s: Seq<char>, n: Seq<char>) -> Option<int> {
    if exists|k: int| first_occurrence(s, 0, s.len() as int, n, k) {
        Some(choose|k: int| first_occurrence(s, 0, s.len() as int, n, k))
    } else {
        None
    }
}

/// The pieces of `s` between occurrences of `c` (`str::split` with a char).
pub open spec fn split_on(s: Seq<char>, c: char) -> Seq<Seq<char>>
    decreases s.len(),
{
    match find_first(s, c) {
        None => seq![s],
        Some(k) => if 0 <= k < s.len() {
            seq![s.subrange(0, k)] + split_on(s.subrange(k + 1, s.len() as int), c)
        } else {
            seq![s]
        },
    }
}

/// Splitting at a first separator at `k` peels off the piece before it.
pub proof fn lemma_split_step(v: Seq<char>, pos: int, k: int, hi: int, c: char)
    requires
        0 <= pos <= k < hi <= v.len(),
        find_first(v.subrange(pos, hi), c) == Some(k - pos),
    ensures
        split_on(v.subrange(pos, hi), c) == seq![v.subrange(pos, k)] + split_on(v.subrange(k + 1, hi), c),
{
    let s = v.subrange(pos, hi);
    assert(s.subrange(0, k - pos) =~= v.subrange(pos, k));
    assert(s.subrange(k - pos + 1, s.len() as int) =~= v.subrange(k + 1, hi));
}

/// Whether `s` begins with `c`.
pub open spec fn starts_with_char(s: Seq<char>, c: char) -> bool {
    s.len() > 0 && s[0] == c
}

/// The first occurrence of `c` in `v[lo..hi]` (`str::find` with a char).
pub fn find_char(v: &Vec<char>, lo: usize, hi: usize, c: char) -> (r: Option<usize>)
    requires
        lo <= hi <= v@.len(),
    ensures
        match r {
            Some(k) => first_at(v@, lo as int, hi as int, c, k as int) && find_first(
                v@.subrange(lo as int, hi as int),
                c,
            ) == Some(k - lo),
            None => absent_in(v@, lo as int, hi as int, c) && find_first(
                v@.subrange(lo as int, hi as int),
                c,
            ) == None::<int>,
        },
{
    let ghost s = v@.subrange(lo as int, hi as int);
    let r = find_char_abs(v, lo, hi, c);
    proof {
        match r {
            Some(k) => {
                assert(first_at(s, 0, s.len() as int, c, k - lo));
                let w = choose|w: int| first_at(s, 0, s.len() as int, c, w);
                assert(w == k - lo) by {
                    if w < k - lo {
                        assert(s[w] == c);
                    } else if w > k - lo {
                        assert(s[k - lo] == c);
                    }
                }
            },
            None => {
                assert forall|w: int| !first_at(s, 0, s.len() as int, c, w) by {
                    if first_at(s, 0, s.len() as int, c, w) {
                        assert(v@[lo + w] == c);
                    }
                }
            },
        }
    }
    r
}

fn find_char_abs(v: &Vec<char>, lo: usize, hi: usize, c: char) -> (r: Option<usize>)
    requires
        lo <= hi <= v@.len(),
    ensures
        match r {
            Some(k) => first_at(v@, lo as int, hi as int, c, k as int),
            None => absent_in(v@, lo as int, hi as int, c),
        },
{
    let mut i = lo;
    while i < hi
        invariant
            lo <= i <= hi <= v@.len(),
            absent_in(v@, lo as int, i as int, c),
        decreases hi - i,
    {
        if v[i] == c {
            return Some(i);
        }
        i = i + 1;
    }
    None
}

/// `k` is the last position in `lo..hi` holding `c`.
pub open spec fn last_at(s: Seq<char>, lo: int, hi: int, c: char, k: int) -> bool {
    lo <= k < hi && s[k] == c && forall|j: int| k < j < hi ==> s[j] != c
}

/// The last occurrence of `c` in `v[lo..hi]` (`str::rfind` with a char).
pub fn rfind_char(v: &Vec<char>, lo: usize, hi: usize, c: char) -> (r: Option<usize>)
    requires
        lo <= hi <= v@.len(),
    ensures
        match r {
            Some(k) => lo <= k < hi && find_last(v@.subrange(lo as int, hi as int), c) == Some(
                k - lo,
            ),
            None => find_last(v@.subrange(lo as int, hi as int), c) == None::<int>,
        },
{
    let ghost s = v@.subrange(lo as int, hi as int);
    let r = rfind_char_abs(v, lo, hi, c);
    proof {
        match r {
            Some(k) => {
                assert(last_at(s, 0, s.len() as int, c, k - lo));
                let w = choose|w: int| last_at(s, 0, s.len() as int, c, w);
                assert(w == k - lo) by {
                    if w < k - lo {
                        assert(s[k - lo] == c);
                    } else if w > k - lo {
                        assert(s[w] == c);
                    }
                }
            },
            None => {
                assert forall|w: int| !last_at(s, 0, s.len() as int, c, w) by {
                    if last_at(s, 0, s.len() as int, c, w) {
                        assert(v@[lo + w] == c);
                    }
                }
            },
        }
    }
    r
}

fn rfind_char_abs(v: &Vec<char>, lo: usize, hi: usize, c: char) -> (r: Option<usize>)
    requires
        lo <= hi <= v@.len(),
    ensures
        match r {
            Some(k) => last_at(v@, lo as int, hi as int, c, k as int),
            None => absent_in(v@, lo as int, hi as int, c),
        },
{
    let mut i = hi;
    while i > lo
        invariant
            lo <= i <= hi <= v@.len(),
            absent_in(v@, i as int, hi as int, c),
        decreases i - lo,
    {
        if v[i - 1] == c {
            return Some(i - 1);
        }
        i = i - 1;
    }
    None
}

/// `n` occurs in `s` starting at `i`.
pub open spec fn occurs_at(s: Seq<char>, n: Seq<char>, i: int) -> bool {
    0 <= i && i + n.len() <= s.len() && s.subrange(i, i + n.len()) == n
}

/// `k` is the first start in `lo..` of an occurrence of `n` that ends by `hi`.
pub open spec fn first_occurrence(s: Seq<char>, lo: int, hi: int, n: Seq<char>, k: int) -> bool {
    lo <= k && k + n.len() <= hi && occurs_at(s, n, k) && forall|j: int|
        lo <= j < k ==> !#[trigger] occurs_at(s, n, j)
}

/// No occurrence of `n` lies within `lo..hi`.
pub open spec fn no_occurrence(s: Seq<char>, lo: int, hi: int, n: Seq<char>) -> bool {
    forall|j: int| lo <= j && j + n.len() <= hi ==> !#[trigger] occurs_at(s, n, j)
}

/// Whether `n` occurs at position `i` of `v`.
pub fn matches_at(v: &Vec<char>, i: usize, n: &Vec<char>) -> (r: bool)
    requires
        i + n@.len() <= v@.len(),
    ensures
        r == occurs_at(v@, n@, i as int),
{
    let vl = v.len();
    let mut j: usize = 0;
    while j < n.len()
        invariant
            vl == v@.len(),
            i + n@.len() <= v@.len(),
            j <= n@.len(),
            forall|t: int| 0 <= t < j ==> v@[i + t] == n@[t],
        decreases n@.len() - j,
    {
        if v[i + j] != n[j] {
            assert(v@.subrange(i as int, i + n@.len())[j as int] != n@[j as int]);
            return false;
        }
        j = j + 1;
    }
    assert(v@.subrange(i as int, i + n@.len()) =~= n@);
    true
}

/// The first occurrence of `n` inside `v[lo..hi]` (`str::find` with a pattern string).
pub fn find_seq(v: &Vec<char>, lo: usize, hi: usize, n: &Vec<char>) -> (r: Option<usize>)
    requires
        lo <= hi <= v@.len(),
    ensures
        match r {
            Some(k) => first_occurrence(v@, lo as int, hi as int, n@, k as int) && find_first_seq(
                v@.subrange(lo as int, hi as int),
                n@,
            ) == Some(k - lo),
            None => no_occurrence(v@, lo as int, hi as int, n@) && find_first_seq(
                v@.subrange(lo as int, hi as int),
                n@,
            ) == None::<int>,
        },
{
    let ghost s = v@.subrange(lo as int, hi as int);
    let r = find_seq_abs(v, lo, hi, n);
    proof {
        assert forall|j: int| 0 <= j && j + n@.len() <= s.len() implies #[trigger] occurs_at(
            s,
            n@,
            j,
        ) == occurs_at(v@, n@, lo + j) by {
            assert(s.subrange(j, j + n@.len()) =~= v@.subrange(lo + j, lo + j + n@.len()));
        }
        match r {
            Some(k) => {
                assert(occurs_at(v@, n@, k as int));
                assert(occurs_at(s, n@, k - lo));
                assert forall|j: int| 0 <= j < k - lo implies !#[trigger] occurs_at(s, n@, j) by {
                    assert(!occurs_at(v@, n@, lo + j));
                }
                assert(first_occurrence(s, 0, s.len() as int, n@, k - lo));
                let w = choose|w: int| first_occurrence(s, 0, s.len() as int, n@, w);
                assert(w == k - lo) by {
                    if w < k - lo {
                        assert(!occurs_at(s, n@, w));
                    } else if w > k - lo {
                        assert(!occurs_at(s, n@, k - lo));
                    }
                }
            },
            None => {
                assert forall|w: int| !first_occurrence(s, 0, s.len() as int, n@, w) by {
                    if first_occurrence(s, 0, s.len() as int, n@, w) {
                        assert(occurs_at(s, n@, w));
                        assert(occurs_at(v@, n@, lo + w));
                    }
                }
            },
        }
    }
    r
}

fn find_seq_abs(v: &Vec<char>, lo: usize, hi: usize, n: &Vec<char>) -> (r: Option<usize>)
    requires
        lo <= hi <= v@.len(),
    ensures
        match r {
            Some(k) => first_occurrence(v@, lo as int, hi as int, n@, k as int),
            None => no_occurrence(v@, lo as int, hi as int, n@),
        },
{
    if n.len() > hi - lo {
        return None;
    }
    let last = hi - n.len();
    let mut i = lo;
    loop
        invariant
            lo <= i <= last,
            last + n@.len() == hi <= v@.len(),
            forall|j: int| lo <= j < i ==> !#[trigger] occurs_at(v@, n@, j),
        decreases last - i,
    {
        if matches_at(v, i, n) {
            return Some(i);
        }
        if i == last {
            return None;
        }
        i = i + 1;
    }
}

/// Whether the characters `v` spell exactly the text `t`.
pub fn equals_text(v: &Vec<char>, t: &str) -> (r: bool)
    ensures
        r == (v@ == t@),
{
    let tv = chars_of(t);
    if v.len() != tv.len() {
        return false;
    }
    let mut i: usize = 0;
    while i < v.len()
        invariant
            i <= v@.len(),
            v@.len() == tv@.len(),
            tv@ == t@,
            forall|j: int| 0 <= j < i ==> v@[j] == tv@[j],
        decreases v@.len() - i,
    {
        if v[i] != tv[i] {
            return false;
        }
        i = i + 1;
    }
    assert(v@ =~= tv@);
    true
}

/// Whether the texts `a` and `b` are the same.
pub fn same_text(a: &str, b: &str) -> (r: bool)
    ensures
        r == (a@ == b@),
{
    let av = chars_of(a);
    equals_text(&av, b)
}

/// Whether `n` occurs anywhere in `s`.
pub open spec fn contains_seq(s: Seq<char>, n: Seq<char>) -> bool {
    exists|i: int| #[trigger] occurs_at(s, n, i)
}

/// Whether the string `s` contains the text `n` (`str::contains`).
pub fn contains_text(s: &Vec<char>, n: &str) -> (r: bool)
    ensures
        r == contains_seq(s@, n@),
{
    let nv = chars_of(n);
    match find_seq(s, 0, s.len(), &nv) {
        Some(k) => true,
        None => {
            assert forall|i: int| !#[trigger] occurs_at(s@, n@, i) by {
                if occurs_at(s@, n@, i) {
                    assert(0 <= i && i + n@.len() <= s@.len());
                }
            }
            false
        },
    }
}

/// Whether `s` starts with `p`.
pub open spec fn has_prefix(s: Seq<char>, p: Seq<char>) -> bool {
    p.len() <= s.len() && s.subrange(0, p.len() as int) == p
}

/// Whether `v[lo..hi]` starts with the text `p`.
pub fn starts_with_at(v: &Vec<char>, lo: usize, hi: usize, p: &str) -> (r: bool)
    requires
        lo <= hi <= v@.len(),
    ensures
        r == has_prefix(v@.subrange(lo as int, hi as int), p@),
{
    let pv = chars_of(p);
    if pv.len() > hi - lo {
        return false;
    }
    let mut j: usize = 0;
    while j < pv.len()
        invariant
            j <= pv@.len(),
            lo + pv@.len() <= hi <= v@.len(),
            pv@ == p@,
            forall|t: int| 0 <= t < j ==> v@[lo + t] == pv@[t],
        decreases pv@.len() - j,
    {
        if v[lo + j] != pv[j] {
            assert(v@.subrange(lo as int, hi as int).subrange(0, pv@.len() as int)[j as int] != pv@[j as int]);
            return false;
        }
        j = j + 1;
    }
    assert(v@.subrange(lo as int, hi as int).subrange(0, pv@.len() as int) =~= pv@);
    true
}

/// Whether `n` occurs within `v[lo..hi]`.
pub fn contains_in(v: &Vec<char>, lo: usize, hi: usize, n: &Vec<char>) -> (r: bool)
    requires
        lo <= hi <= v@.len(),
    ensures
        r == contains_seq(v@.subrange(lo as int, hi as int), n@),
{
    let ghost s = v@.subrange(lo as int, hi as int);
    match find_seq(v, lo, hi, n) {
        Some(k) => {
            assert(occurs_at(s, n@, k - lo)) by {
                assert(s.subrange(k - lo, k - lo + n@.len()) =~= v@.subrange(k as int, k + n@.len()));
            }
            true
        },
        None => {
            assert forall|i: int| !#[trigger] occurs_at(s, n@, i) by {
                if occurs_at(s, n@, i) {
                    assert(s.subrange(i, i + n@.len()) =~= v@.subrange(lo + i, lo + i + n@.len()));
                    assert(occurs_at(v@, n@, lo + i));
                }
            }
            false
        },
    }
}

/// The pieces of `s` between non-overlapping occurrences of `sep`, left to
/// right (`str::split` with a non-empty string pattern).
pub open spec fn split_seq(s: Seq<char>, sep: Seq<char>) -> Seq<Seq<char>>
    decreases s.len(),
{
    match find_first_seq(s, sep) {
        Some(k) => if 0 <= k && k + sep.len() <= s.len() && sep.len() > 0 {
            seq![s.subrange(0, k)] + split_seq(s.subrange(k + sep.len(), s.len() as int), sep)
        } else {
            seq![s]
        },
        None => seq![s],
    }
}

/// The character ranges of the pieces of `v[lo..hi]` split at `sep`.
pub fn split_ranges(v: &Vec<char>, lo: usize, hi: usize, sep: &Vec<char>) -> (r: Vec<(usize, usize)>)
    requires
        lo <= hi <= v@.len(),
        sep@.len() > 0,
    ensures
        r@.map_values(|p: (usize, usize)| v@.subrange(p.0 as int, p.1 as int)) == split_seq(
            v@.subrange(lo as int, hi as int),
            sep@,
        ),
        forall|i: int| 0 <= i < r@.len() ==> lo <= (#[trigger] r@[i]).0 <= r@[i].1 <= hi,
{
    let mut out: Vec<(usize, usize)> = Vec::new();
    let ghost mut acc: Seq<Seq<char>> = seq![];
    let mut pos = lo;
    loop
        invariant
            lo <= pos <= hi <= v@.len(),
            sep@.len() > 0,
            split_seq(v@.subrange(lo as int, hi as int), sep@) == acc + split_seq(
                v@.subrange(pos as int, hi as int),
                sep@,
            ),
            out@.map_values(|p: (usize, usize)| v@.subrange(p.0 as int, p.1 as int)) == acc,
            forall|i: int| 0 <= i < out@.len() ==> lo <= (#[trigger] out@[i]).0 <= out@[i].1 <= hi,
        decreases hi - pos,
    {
        let ghost s = v@.subrange(pos as int, hi as int);
        match find_seq(v, pos, hi, sep) {
            None => {
                out.push((pos, hi));
                proof {
                    assert(out@.map_values(|p: (usize, usize)| v@.subrange(p.0 as int, p.1 as int)) =~= acc.push(s));
                    assert(acc + seq![s] =~= acc.push(s));
                }
                return out;
            },
            Some(k) => {
                out.push((pos, k));
                let next = k + sep.len();
                proof {
                    assert(s.subrange(0, k - pos) =~= v@.subrange(pos as int, k as int));
                    assert(s.subrange(k - pos + sep@.len(), s.len() as int) =~= v@.subrange(next as int, hi as int));
                    let piece = v@.subrange(pos as int, k as int);
                    assert(out@.map_values(|p: (usize, usize)| v@.subrange(p.0 as int, p.1 as int)) =~= acc.push(piece));
                    assert(acc + (seq![piece] + split_seq(v@.subrange(next as int, hi as int), sep@)) =~= acc.push(piece)
                        + split_seq(v@.subrange(next as int, hi as int), sep@));
                    acc = acc.push(piece);
                }
                pos = next;
            },
        }
    }
}

/// `k` is the start of the last occurrence of `n` within `s`.
pub open spec fn last_occurrence(s: Seq<char>, n: Seq<char>, k: int) -> bool {
    occurs_at(s, n, k) && forall|j: int| k < j ==> !#[trigger] occurs_at(s, n, j)
}

/// The index of the last occurrence of `n` in `s` (`str::rfind` with a string).
pub open spec fn find_last_seq(s: Seq<char>, n: Seq<char>) -> Option<int> {
    if exists|k: int| last_occurrence(s, n, k) {
        Some(choose|k: int| last_occurrence(s, n, k))
    } else {
        None
    }
}

/// The last occurrence of `n` within `v[lo..hi]` (as an index into `v`).
pub fn rfind_seq(v: &Vec<char>, lo: usize, hi: usize, n: &Vec<char>) -> (r: Option<usize>)
    requires
        lo <= hi <= v@.len(),
    ensures
        match r {
            Some(k) => lo <= k && find_last_seq(v@.subrange(lo as int, hi as int), n@) == Some(k - lo),
            None => find_last_seq(v@.subrange(lo as int, hi as int), n@) is None,
        },
{
    let ghost s = v@.subrange(lo as int, hi as int);
    if n.len() > hi - lo {
        proof {
            assert forall|k: int| !last_occurrence(s, n@, k) by {}
        }
        return None;
    }
    let mut i = hi - n.len();
    loop
        invariant
            lo <= i,
            i + n@.len() <= hi <= v@.len(),
            s == v@.subrange(lo as int, hi as int),
            forall|j: int| i - lo < j ==> !#[trigger] occurs_at(s, n@, j),
        decreases i,
    {
        let m = matches_at(v, i, n);
        proof {
            assert(s.subrange(i - lo, i - lo + n@.len()) =~= v@.subrange(i as int, i + n@.len()));
        }
        if m {
            proof {
                let t = i - lo;
                assert(occurs_at(s, n@, t));
                assert(last_occurrence(s, n@, t));
                let w = choose|w: int| last_occurrence(s, n@, w);
                assert(w == t) by {
                    if w < t {
                        assert(!occurs_at(s, n@, t));
                    } else if w > t {
                        assert(!occurs_at(s, n@, w));
                    }
                }
            }
            return Some(i);
        }
        if i == lo {
            proof {
                assert forall|k: int| !last_occurrence(s, n@, k) by {
                    if last_occurrence(s, n@, k) {
                        assert(occurs_at(s, n@, k));
                    }
                }
            }
            return None;
        }
        i = i - 1;
    }
}

/// `s` with every comma removed.
pub open spec fn without_commas(s: Seq<char>) -> Seq<char>
    decreases s.len(),
{
    if s.len() == 0 {
        s
    } else if s.last() == ',' {
        without_commas(s.drop_last())
    } else {
        without_commas(s.drop_last()).push(s.last())
    }
}

/// The characters of `v[lo..hi]` with commas removed.
pub fn strip_commas(v: &Vec<char>, lo: usize, hi: usize) -> (r: Vec<char>)
    requires
        lo <= hi <= v@.len(),
    ensures
        r@ == without_commas(v@.subrange(lo as int, hi as int)),
{
    let mut out: Vec<char> = Vec::new();
    let mut i = lo;
    while i < hi
        invariant
            lo <= i <= hi <= v@.len(),
            out@ == without_commas(v@.subrange(lo as int, i as int)),
        decreases hi - i,
    {
        proof {
            assert(v@.subrange(lo as int, i + 1).drop_last() =~= v@.subrange(lo as int, i as int));
        }
        if v[i] != ',' {
            out.push(v[i]);
        }
        i = i + 1;
    }
    out
}

// ─── Decimal numbers ─────────────────────────────────────────

/// Whether `c` is an ASCII decimal digit.
pub open spec fn is_digit(c: char) -> bool {
    '0' <= c && c <= '9'
}

/// The value of an ASCII digit.
pub open spec fn digit_value(c: char) -> nat {
    (c as int - '0' as int) as nat
}

/// Whether every character of `s` is an ASCII digit.
pub open spec fn all_digits(s: Seq<char>) -> bool {
    forall|i: int| 0 <= i < s.len() ==> is_digit(#[trigger] s[i])
}

/// The number a run of decimal digits denotes.
pub open spec fn decimal_value(s: Seq<char>) -> nat
    decreases s.len(),
{
    if s.len() == 0 {
        0
    } else {
        decimal_value(s.subrange(0, s.len() - 1)) * 10 + digit_value(s[s.len() - 1])
    }
}

/// Ten to the power `n`.
pub open spec fn pow10(n: nat) -> nat
    decreases n,
{
    if n == 0 {
        1
    } else {
        10 * pow10((n - 1) as nat)
    }
}

/// The decimal representation of `n`, without leading zeros.
pub open spec fn decimal_text(n: nat) -> Seq<char>
    decreases n,
{
    if n < 10 {
        seq![digit_char(n)]
    } else {
        decimal_text(n / 10).push(digit_char(n % 10))
    }
}

/// The ASCII digit for `d < 10`.
pub open spec fn digit_char(d: nat) -> char {
    if d == 0 {
        '0'
    } else if d == 1 {
        '1'
    } else if d == 2 {
        '2'
    } else if d == 3 {
        '3'
    } else if d == 4 {
        '4'
    } else if d == 5 {
        '5'
    } else if d == 6 {
        '6'
    } else if d == 7 {
        '7'
    } else if d == 8 {
        '8'
    } else {
        '9'
    }
}

pub(crate) fn digit_str(d: u64) -> (r: &'static str)
    requires
        d < 10,
    ensures
        r@ == seq![digit_char(d as nat)],
{
    proof {
        reveal_strlit("0");
        reveal_strlit("1");
        reveal_strlit("2");
        reveal_strlit("3");
        reveal_strlit("4");
        reveal_strlit("5");
        reveal_strlit("6");
        reveal_strlit("7");
        reveal_strlit("8");
        reveal_strlit("9");
    }
    if d == 0 {
        "0"
    } else if d == 1 {
        "1"
    } else if d == 2 {
        "2"
    } else if d == 3 {
        "3"
    } else if d == 4 {
        "4"
    } else if d == 5 {
        "5"
    } else if d == 6 {
        "6"
    } else if d == 7 {
        "7"
    } else if d == 8 {
        "8"
    } else {
        "9"
    }
}

/// The digit of `d < 10` is a digit, and denotes `d`.
pub proof fn lemma_digit_char(d: nat)
    requires
        d < 10,
    ensures
        is_digit(digit_char(d)),
        digit_value(digit_char(d)) == d,
        digit_char(d) != '.' && digit_char(d) != '+' && digit_char(d) != '-',
{
}

/// The decimal text of a number is a non-empty run of digits that denotes it.
pub proof fn lemma_decimal_text(n: nat)
    ensures
        decimal_text(n).len() >= 1,
        all_digits(decimal_text(n)),
        decimal_value(decimal_text(n)) == n,
    decreases n,
{
    if n < 10 {
        lemma_digit_char(n);
        let u = seq![digit_char(n)];
        assert(u.subrange(0, 0) =~= Seq::<char>::empty());
        assert(decimal_value(u.subrange(0, 0)) == 0);
        assert(decimal_value(u) == digit_value(digit_char(n)));
    } else {
        lemma_decimal_text(n / 10);
        lemma_digit_char(n % 10);
        let t = decimal_text(n / 10);
        let u = t.push(digit_char(n % 10));
        assert(u.subrange(0, u.len() - 1) =~= t);
        assert(u[u.len() - 1] == digit_char(n % 10));
        assert(decimal_value(u) == decimal_value(t) * 10 + digit_value(digit_char(n % 10)));
        assert((n / 10) * 10 + n % 10 == n);
        assert(decimal_text(n) == u);
    }
}

/// A first position of `c` is what `find_first` gives.
pub proof fn lemma_find_first_at(s: Seq<char>, c: char, k: int)
    requires
        first_at(s, 0, s.len() as int, c, k),
    ensures
        find_first(s, c) == Some(k),
{
    let w = choose|w: int| first_at(s, 0, s.len() as int, c, w);
    assert(w == k) by {
        if w < k {
            assert(s[w] == c);
        } else if w > k {
            assert(s[k] == c);
        }
    }
}

/// Without `c`, `find_first` gives nothing.
pub proof fn lemma_find_first_absent(s: Seq<char>, c: char)
    requires
        absent_in(s, 0, s.len() as int, c),
    ensures
        find_first(s, c) == None::<int>,
{
    assert forall|w: int| !first_at(s, 0, s.len() as int, c, w) by {
        if first_at(s, 0, s.len() as int, c, w) {
            assert(s[w] == c);
        }
    }
}

/// The decimal text of `n` (what `n.to_string()` gives).
pub fn decimal_string(n: u64) -> (r: String)
    ensures
        r@ == decimal_text(n as nat),
    decreases n,
{
    if n < 10 {
        String::from_str(digit_str(n))
    } else {
        let mut head = decimal_string(n / 10);
        head.append(digit_str(n % 10));
        head
    }
}

} // verus!

verus! {

// ─── Case folding ────────────────────────────────────────────

/// Whether every character of `s` is ASCII.
pub open spec fn all_ascii(s: Seq<char>) -> bool {
    forall|i: int| 0 <= i < s.len() ==> (#[trigger] s[i]) as u32 <= 0x7f
}

/// ASCII lower-casing of one character.
pub open spec fn ascii_lower(c: char) -> char {
    if 'A' <= c && c <= 'Z' {
        ((c as u32) + 32) as char
    } else {
        c
    }
}

/// What `str::to_lowercase` gives for `s`.
pub uninterp spec fn lowercase(s: Seq<char>) -> Seq<char>;

/// `str::to_lowercase`: the Unicode lower-case form of `s`. The contract names
/// the result and states what the documentation fixes for ASCII text: each
/// character is lowered on its own (`A`-`Z` become `a`-`z`, all else stays).
/// For other text it states nothing beyond the name.
#[verifier::external_body]
pub(crate) fn to_lowercase(s: &str) -> (r: String)
    ensures
        r@ == lowercase(s@),
        all_ascii(s@) ==> r@ == s@.map_values(|c: char| ascii_lower(c)),
{
    s.to_lowercase()
}

/// What `str::to_uppercase` gives for `s`.
pub uninterp spec fn uppercase(s: Seq<char>) -> Seq<char>;

/// ASCII upper-casing of one character.
pub open spec fn ascii_upper(c: char) -> char {
    if 'a' <= c && c <= 'z' {
        ((c as u32) - 32) as char
    } else {
        c
    }
}

/// `str::to_uppercase`: the Unicode upper-case form of `s`. The contract names
/// the result and states what the documentation fixes for ASCII text: each
/// character is raised on its own (`a`-`z` become `A`-`Z`, all else stays).
/// For other text it states nothing beyond the name.
#[verifier::external_body]
pub(crate) fn to_uppercase(s: &str) -> (r: String)
    ensures
        r@ == uppercase(s@),
        all_ascii(s@) ==> r@ == s@.map_values(|c: char| ascii_upper(c)),
{
    s.to_uppercase()
}

/// The whitespace-separated words of `s` (`str::split_whitespace`).
pub open spec fn ws_words(s: Seq<char>) -> Seq<Seq<char>>
    decreases s.len(),
{
    if s.len() == 0 {
        seq![]
    } else {
        let w = ws_words(s.drop_last());
        let c = s.last();
        if is_ws(c) {
            w
        } else if s.len() >= 2 && !is_ws(s[s.len() - 2]) && w.len() > 0 {
            w.update(w.len() - 1, w.last().push(c))
        } else {
            w.push(seq![c])
        }
    }
}

proof fn lemma_words_end(s: Seq<char>)
    ensures
        s.len() > 0 && !is_ws(s.last()) ==> ws_words(s).len() > 0,
    decreases s.len(),
{
    if s.len() > 0 {
        lemma_words_end(s.drop_last());
    }
}

/// The character ranges of the whitespace-separated words of `v`.
pub fn word_ranges(v: &Vec<char>) -> (r: Vec<(usize, usize)>)
    ensures
        r@.map_values(|p: (usize, usize)| v@.subrange(p.0 as int, p.1 as int)) == ws_words(v@),
        forall|i: int| 0 <= i < r@.len() ==> (#[trigger] r@[i]).0 <= r@[i].1 <= v@.len(),
{
    let mut out: Vec<(usize, usize)> = Vec::new();
    let mut i: usize = 0;
    while i < v.len()
        invariant
            i <= v@.len(),
            out@.map_values(|p: (usize, usize)| v@.subrange(p.0 as int, p.1 as int)) == ws_words(
                v@.subrange(0, i as int),
            ),
            forall|k: int| 0 <= k < out@.len() ==> (#[trigger] out@[k]).0 <= out@[k].1 <= i,
            i > 0 && !is_ws(v@[i - 1]) ==> out@.len() > 0 && out@.last().1 == i,
        decreases v@.len() - i,
    {
        let ghost pre = v@.subrange(0, i + 1);
        let ghost old_view = out@.map_values(|p: (usize, usize)| v@.subrange(p.0 as int, p.1 as int));
        proof {
            assert(pre.drop_last() =~= v@.subrange(0, i as int));
            assert(pre.last() == v@[i as int]);
            if i > 0 {
                assert(pre[pre.len() - 2] == v@[i - 1]);
            }
        }
        let c = v[i];
        if is_whitespace(c) {
        } else if i > 0 && !is_whitespace(v[i - 1]) {
            let last = out.len() - 1;
            let (a, _) = out[last];
            out.set(last, (a, i + 1));
            proof {
                assert(v@.subrange(a as int, i + 1) =~= v@.subrange(a as int, i as int).push(c));
                assert(out@.map_values(|p: (usize, usize)| v@.subrange(p.0 as int, p.1 as int)) =~= old_view.update(
                    old_view.len() - 1,
                    old_view.last().push(c),
                ));
            }
        } else {
            out.push((i, i + 1));
            proof {
                assert(v@.subrange(i as int, i + 1) =~= seq![c]);
                assert(out@.map_values(|p: (usize, usize)| v@.subrange(p.0 as int, p.1 as int)) =~= old_view.push(
                    seq![c],
                ));
            }
        }
        i = i + 1;
    }
    assert(v@.subrange(0, v@.len() as int) =~= v@);
    out
}

} // verus!
