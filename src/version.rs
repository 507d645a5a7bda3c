//! Reading tool versions out of command output, and comparing them.

use vstd::prelude::*;
use crate::text::{
    to_chars, string_of, split_words, split_char, split_lines, find_text, has_prefix_at,
    trim_bounds, words_of, pieces, lines_of, views, opt_view, starts_with, contains_text, trim,
};

verus! {

/// Decoded text of command output, as `String::from_utf8_lossy` gives it.
pub uninterp spec fn lossy_text(b: Seq<u8>) -> Seq<char>;

/// Relies on `String::from_utf8_lossy`: decodes the bytes, replacing
/// invalid sequences; the text depends on the bytes alone.
#[verifier::external_body]
pub(crate) fn decode_lossy(b: &[u8]) -> (r: String)
    ensures
        r@ == lossy_text(b@),
{
    String::from_utf8_lossy(b).to_string()
}

// ----- integers -----

pub open spec fn is_digit(c: char) -> bool {
    '0' <= c && c <= '9'
}

/// The value of a string of decimal digits.
pub open spec fn digits_value(s: Seq<char>) -> nat
    decreases s.len(),
{
    if s.len() == 0 {
        0
    } else {
        digits_value(s.drop_last()) * 10 + ((s.last() as nat) - ('0' as nat)) as nat
    }
}

/// An unsigned 32-bit number as `str::parse::<u32>` reads it: an optional
/// `+`, then at least one digit, and no more than `u32::MAX`.
pub open spec fn parse_u32_text(s: Seq<char>) -> Option<u32> {
    if s.len() > 0 && s[0] == '+' {
        digits_u32(s.drop_first())
    } else {
        digits_u32(s)
    }
}

/// At least one digit, and no more than `u32::MAX`.
pub open spec fn digits_u32(d: Seq<char>) -> Option<u32> {
    if d.len() > 0 && (forall|i: int| 0 <= i < d.len() ==> is_digit(#[trigger] d[i])) && digits_value(d)
        <= u32::MAX {
        Some(digits_value(d) as u32)
    } else {
        None
    }
}

proof fn lemma_digits_grow(s: Seq<char>, i: int)
    requires
        0 <= i <= s.len(),
        forall|j: int| 0 <= j < s.len() ==> is_digit(#[trigger] s[j]),
    ensures
        digits_value(s.subrange(0, i)) <= digits_value(s),
    decreases s.len() - i,
{
    if i < s.len() {
        lemma_digits_grow(s, i + 1);
        assert(s.subrange(0, i + 1).drop_last() =~= s.subrange(0, i));
    } else {
        assert(s.subrange(0, i) =~= s);
    }
}

/// Reads an unsigned 32-bit number.
pub fn parse_u32(s: &str) -> (r: Option<u32>)
    ensures
        r == parse_u32_text(s@),
{
    let cs = to_chars(s);
    let n = cs.len();
    let start: usize = if n > 0 && cs[0] == '+' { 1 } else { 0 };
    let ghost d = if s@.len() > 0 && s@[0] == '+' { s@.drop_first() } else { s@ };
    assert(d =~= cs@.subrange(start as int, n as int));
    if start == n {
        return None;
    }
    let mut val: u64 = 0;
    let mut i: usize = start;
    while i < n
        invariant
            n == cs@.len(),
            start < n,
            d == cs@.subrange(start as int, n as int),
            d == (if s@.len() > 0 && s@[0] == '+' { s@.drop_first() } else { s@ }),
            start <= i <= n,
            forall|j: int| 0 <= j < i - start ==> is_digit(#[trigger] d[j]),
            val == digits_value(d.subrange(0, i - start)),
            val <= u32::MAX,
        decreases n - i,
    {
        let c = cs[i];
        assert(d[i - start] == c);
        if !('0' <= c && c <= '9') {
            assert(!(forall|j: int| 0 <= j < d.len() ==> is_digit(#[trigger] d[j]))) by {
                assert(!is_digit(d[i - start]));
            }
            assert(digits_u32(d) is None);
            return None;
        }
        assert(d.subrange(0, i + 1 - start).drop_last() =~= d.subrange(0, i - start));
        assert(d.subrange(0, i + 1 - start).last() == c);
        val = val * 10 + ((c as u32) - ('0' as u32)) as u64;
        assert(val == digits_value(d.subrange(0, i + 1 - start)));
        if val > 4294967295u64 {
            proof {
                if forall|j: int| 0 <= j < d.len() ==> is_digit(#[trigger] d[j]) {
                    lemma_digits_grow(d, i + 1 - start);
                    assert(digits_value(d) > u32::MAX);
                }
                assert(digits_u32(d) is None);
            }
            return None;
        }
        i = i + 1;
    }
    assert(d.subrange(0, n - start) =~= d);
    Some(val as u32)
}

// ----- semantic versions -----

/// `s` without its leading `v`s.
pub open spec fn strip_v(s: Seq<char>) -> Seq<char>
    decreases s.len(),
{
    if s.len() > 0 && s[0] == 'v' {
        strip_v(s.drop_first())
    } else {
        s
    }
}

/// The text that is read as a version: the first word (the whole text
/// when it has none), without leading `v`s, trimmed.
pub open spec fn semver_core(v: Seq<char>) -> Seq<char> {
    let w = words_of(v);
    let first = if w.len() > 0 {
        w[0]
    } else {
        v
    };
    trim(strip_v(first))
}

/// `major.minor[.patch]`, each part a `u32`; a missing patch is 0.
pub open spec fn semver_of(v: Seq<char>) -> Option<(u32, u32, u32)> {
    let parts = pieces(semver_core(v), '.');
    if parts.len() >= 2 {
        match (parse_u32_text(parts[0]), parse_u32_text(parts[1])) {
            (Some(a), Some(b)) => if parts.len() >= 3 {
                match parse_u32_text(parts[2]) {
                    Some(c) => Some((a, b, c)),
                    None => None,
                }
            } else {
                Some((a, b, 0))
            },
            _ => None,
        }
    } else {
        None
    }
}

/// Reads a semantic version.
pub fn parse_semver(version: &str) -> (r: Option<(u32, u32, u32)>)
    ensures
        r == semver_of(version@),
{
    let cs = to_chars(version);
    let n = cs.len();
    assert(cs@.subrange(0, n as int) =~= cs@);
    let words = split_words(cs.as_slice(), 0, n);
    let first: Vec<char> = if words.len() > 0 {
        to_chars(words[0].as_str())
    } else {
        cs
    };
    let mut a: usize = 0;
    assert(first@.subrange(0, first@.len() as int) =~= first@);
    while a < first.len() && first[a] == 'v'
        invariant
            a <= first@.len(),
            strip_v(first@) == strip_v(first@.subrange(a as int, first@.len() as int)),
        decreases first.len() - a,
    {
        assert(first@.subrange(a as int, first@.len() as int).drop_first() =~= first@.subrange(a + 1, first@.len() as int));
        a = a + 1;
    }
    let (x, y) = trim_bounds(first.as_slice(), a, first.len());
    let parts = split_char(first.as_slice(), x, y, '.');
    if parts.len() < 2 {
        return None;
    }
    let major = match parse_u32(parts[0].as_str()) {
        Some(v) => v,
        None => {
            return None;
        },
    };
    let minor = match parse_u32(parts[1].as_str()) {
        Some(v) => v,
        None => {
            return None;
        },
    };
    let patch = if parts.len() >= 3 {
        match parse_u32(parts[2].as_str()) {
            Some(v) => v,
            None => {
                return None;
            },
        }
    } else {
        0
    };
    Some((major, minor, patch))
}

/// -1, 0 or 1 as `a` is below, equal to or above `b`.
pub open spec fn sign_cmp(a: u32, b: u32) -> i32 {
    if a < b {
        -1i32
    } else if a == b {
        0i32
    } else {
        1i32
    }
}

/// Versions compared part by part; one that does not parse is below one
/// that does, and two that do not are equal.
pub open spec fn version_order(v1: Seq<char>, v2: Seq<char>) -> i32 {
    match (semver_of(v1), semver_of(v2)) {
        (Some((m1, n1, p1)), Some((m2, n2, p2))) => if m1 != m2 {
            sign_cmp(m1, m2)
        } else if n1 != n2 {
            sign_cmp(n1, n2)
        } else {
            sign_cmp(p1, p2)
        },
        (Some(_), None) => 1i32,
        (None, Some(_)) => -1i32,
        (None, None) => 0i32,
    }
}

/// Compares two semantic versions: -1, 0 or 1.
pub fn compare_versions(v1: &str, v2: &str) -> (r: i32)
    ensures
        r == version_order(v1@, v2@),
{
    let cmp = |a: u32, b: u32| -> (r: i32)
        ensures
            r == sign_cmp(a, b),
        {
            if a < b {
                -1
            } else if a == b {
                0
            } else {
                1
            }
        };
    match (parse_semver(v1), parse_semver(v2)) {
        (Some((m1, n1, p1)), Some((m2, n2, p2))) => {
            if m1 != m2 {
                cmp(m1, m2)
            } else if n1 != n2 {
                cmp(n1, n2)
            } else {
                cmp(p1, p2)
            }
        },
        (Some(_), None) => 1,
        (None, Some(_)) => -1,
        (None, None) => 0,
    }
}

// ----- versions in command output -----

/// The version after `prefix` on the first line that starts with it: the
/// first word there, if any.
pub open spec fn version_after(lines: Seq<Seq<char>>, prefix: Seq<char>) -> Option<Seq<char>>
    decreases lines.len(),
{
    if lines.len() == 0 {
        None
    } else if starts_with(lines[0], prefix) {
        let w = words_of(lines[0].subrange(prefix.len() as int, lines[0].len() as int));
        if w.len() > 0 {
            Some(w[0])
        } else {
            None
        }
    } else {
        version_after(lines.drop_first(), prefix)
    }
}

/// Reads the version that follows `prefix` in decoded output text.
pub fn parse_version_text(text: &str, prefix: &str) -> (r: Option<String>)
    ensures
        opt_view(r) == version_after(lines_of(text@), prefix@),
{
    let lines = split_lines(text);
    let p = to_chars(prefix);
    let n = lines.len();
    let ghost ls = views(lines@);
    assert(ls.subrange(0, n as int) =~= ls);
    let mut j: usize = 0;
    while j < n
        invariant
            n == lines@.len(),
            ls == views(lines@),
            ls == lines_of(text@),
            p@ == prefix@,
            j <= n,
            version_after(ls, p@) == version_after(ls.subrange(j as int, n as int), p@),
        decreases n - j,
    {
        let ghost rest = ls.subrange(j as int, n as int);
        assert(rest[0] == lines@[j as int]@);
        assert(rest.drop_first() =~= ls.subrange(j + 1, n as int));
        let line = to_chars(lines[j].as_str());
        if has_prefix_at(line.as_slice(), 0, p.as_slice()) {
            assert(line@.subrange(0, 0 + p@.len() as int) =~= line@.subrange(0, p@.len() as int));
            let words = split_words(line.as_slice(), p.len(), line.len());
            if words.len() > 0 {
                return Some(words[0].clone());
            }
            return None;
        }
        proof {
            if p@.len() <= line@.len() {
                assert(line@.subrange(0, 0 + p@.len() as int) =~= line@.subrange(0, p@.len() as int));
            }
        }
        j = j + 1;
    }
    None
}

/// Reads the version that follows `prefix` in command output.
pub fn parse_version(output: &[u8], prefix: &str) -> (r: Option<String>)
    ensures
        opt_view(r) == version_after(lines_of(lossy_text(output@)), prefix@),
{
    let text = decode_lossy(output);
    parse_version_text(text.as_str(), prefix)
}

/// A word that names a Go release: `go1...`, `go2...` or `go3...`.
pub open spec fn is_go_word(w: Seq<char>) -> bool {
    starts_with(w, seq!['g', 'o', '1']) || starts_with(w, seq!['g', 'o', '2']) || starts_with(
        w,
        seq!['g', 'o', '3'],
    )
}

/// `w` without its leading `go`s.
pub open spec fn strip_go(w: Seq<char>) -> Seq<char>
    decreases w.len(),
{
    if starts_with(w, seq!['g', 'o']) {
        strip_go(w.subrange(2, w.len() as int))
    } else {
        w
    }
}

/// The first Go release word among `ws`.
pub open spec fn first_go_word(ws: Seq<Seq<char>>) -> Option<Seq<char>>
    decreases ws.len(),
{
    if ws.len() == 0 {
        None
    } else if is_go_word(ws[0]) {
        Some(ws[0])
    } else {
        first_go_word(ws.drop_first())
    }
}

/// The Go version in `go version` output: on the first line that says
/// `go version` and has a release word, that word without its `go`.
pub open spec fn go_version_in(lines: Seq<Seq<char>>) -> Option<Seq<char>>
    decreases lines.len(),
{
    if lines.len() == 0 {
        None
    } else if contains_text(lines[0], "go version"@) {
        match first_go_word(words_of(lines[0])) {
            Some(w) => Some(strip_go(w)),
            None => go_version_in(lines.drop_first()),
        }
    } else {
        go_version_in(lines.drop_first())
    }
}

/// `text`, or `unknown` when there is none.
pub open spec fn or_unknown(o: Option<Seq<char>>) -> Seq<char> {
    match o {
        Some(v) => v,
        None => "unknown"@,
    }
}

fn go_prefixed(w: &Vec<char>) -> (r: bool)
    ensures
        r == is_go_word(w@),
{
    let g1 = has_prefix_at(w.as_slice(), 0, &['g', 'o', '1']);
    let g2 = has_prefix_at(w.as_slice(), 0, &['g', 'o', '2']);
    let g3 = has_prefix_at(w.as_slice(), 0, &['g', 'o', '3']);
    proof {
        let a = seq!['g', 'o', '1'];
        let b = seq!['g', 'o', '2'];
        let c = seq!['g', 'o', '3'];
        if 3 <= w@.len() {
            assert(w@.subrange(0, 0int + 3) =~= w@.subrange(0, 3));
        }
    }
    assert(['g', 'o', '1']@ =~= seq!['g', 'o', '1']);
    assert(['g', 'o', '2']@ =~= seq!['g', 'o', '2']);
    assert(['g', 'o', '3']@ =~= seq!['g', 'o', '3']);
    g1 || g2 || g3
}

/// Where `strip_go(w)` starts in `w`.
fn skip_go(w: &Vec<char>) -> (r: usize)
    ensures
        r <= w@.len(),
        w@.subrange(r as int, w@.len() as int) == strip_go(w@),
{
    let n = w.len();
    let mut a: usize = 0;
    assert(w@.subrange(0, n as int) =~= w@);
    while a < n && n - a >= 2 && w[a] == 'g' && w[a + 1] == 'o'
        invariant
            n == w@.len(),
            a <= n,
            strip_go(w@) == strip_go(w@.subrange(a as int, n as int)),
        decreases n - a,
    {
        let ghost cur = w@.subrange(a as int, n as int);
        assert(cur.subrange(0, 2) =~= seq!['g', 'o']);
        assert(cur.subrange(2, cur.len() as int) =~= w@.subrange(a + 2, n as int));
        a = a + 2;
    }
    proof {
        let cur = w@.subrange(a as int, n as int);
        if starts_with(cur, seq!['g', 'o']) {
            assert(cur.subrange(0, 2)[0] == cur[0]);
            assert(cur.subrange(0, 2)[1] == cur[1]);
            assert(cur[0] == w@[a as int] && cur[1] == w@[a + 1]);
        }
    }
    a
}

/// Reads the Go version from decoded `go version` output, or `unknown`.
pub fn parse_go_version_text(text: &str) -> (r: String)
    ensures
        r@ == or_unknown(go_version_in(lines_of(text@))),
{
    let lines = split_lines(text);
    let marker = to_chars("go version");
    let n = lines.len();
    let ghost ls = views(lines@);
    assert(ls.subrange(0, n as int) =~= ls);
    let mut j: usize = 0;
    while j < n
        invariant
            n == lines@.len(),
            ls == views(lines@),
            ls == lines_of(text@),
            marker@ == "go version"@,
            j <= n,
            go_version_in(ls) == go_version_in(ls.subrange(j as int, n as int)),
        decreases n - j,
    {
        let ghost rest = ls.subrange(j as int, n as int);
        assert(rest[0] == lines@[j as int]@);
        assert(rest.drop_first() =~= ls.subrange(j + 1, n as int));
        let line = to_chars(lines[j].as_str());
        if find_text(line.as_slice(), marker.as_slice()) {
            assert(line@.subrange(0, line@.len() as int) =~= line@);
            let words = split_words(line.as_slice(), 0, line.len());
            let ghost ws = views(words@);
            let mut k: usize = 0;
            assert(ws.subrange(0, words@.len() as int) =~= ws);
            while k < words.len()
                invariant
                    ws == views(words@),
                    ws == words_of(line@),
                    j < n,
                    n == ls.len(),
                    rest == ls.subrange(j as int, n as int),
                    rest[0] == line@,
                    ls == lines_of(text@),
                    contains_text(line@, "go version"@),
                    go_version_in(ls) == go_version_in(rest),
                    k <= words@.len(),
                    first_go_word(ws) == first_go_word(ws.subrange(k as int, words@.len() as int)),
                decreases words.len() - k,
            {
                let ghost wr = ws.subrange(k as int, words@.len() as int);
                assert(wr[0] == words@[k as int]@);
                assert(wr.drop_first() =~= ws.subrange(k + 1, words@.len() as int));
                let w = to_chars(words[k].as_str());
                if go_prefixed(&w) {
                    let a = skip_go(&w);
                    let r = string_of(w.as_slice(), a, w.len());
                    assert(first_go_word(wr) == Some(w@));
                    assert(rest.len() > 0);
                    assert(first_go_word(words_of(rest[0])) == Some(w@));
                    assert(go_version_in(rest) == Some(strip_go(w@)));
                    return r;
                }
                k = k + 1;
            }
        }
        j = j + 1;
    }
    proof {
        reveal_strlit("unknown");
    }
    "unknown".to_owned()
}

/// Reads the Go version from `go version` output, or `unknown`.
pub fn parse_go_version(output: &[u8]) -> (r: String)
    ensures
        r@ == or_unknown(go_version_in(lines_of(lossy_text(output@)))),
{
    let text = decode_lossy(output);
    parse_go_version_text(text.as_str())
}

/// The major Java version in a quoted version string: `1.8.0` gives `8`,
/// `17.0.2` gives `17`.
pub open spec fn java_major(v: Seq<char>) -> Seq<char> {
    if starts_with(v, seq!['1', '.']) {
        pieces(v, '.')[1]
    } else {
        pieces(v, '.')[0]
    }
}

/// The Java version in `java -version` output: the first quoted text on
/// the first line that says `version`, reduced to its major version.
pub open spec fn java_version_in(lines: Seq<Seq<char>>) -> Option<Seq<char>>
    decreases lines.len(),
{
    if lines.len() == 0 {
        None
    } else if contains_text(lines[0], "version"@) {
        let parts = pieces(lines[0], '"');
        let quoted = if parts.len() > 1 {
            parts[1]
        } else {
            Seq::empty()
        };
        Some(java_major(quoted))
    } else {
        java_version_in(lines.drop_first())
    }
}

proof fn lemma_pieces_nonempty(cs: Seq<char>, c: char)
    ensures
        pieces(cs, c).len() >= 1,
{
}

/// Reads the major Java version from decoded output, or `unknown`.
pub fn parse_java_version_text(text: &str) -> (r: String)
    ensures
        r@ == or_unknown(java_version_in(lines_of(text@))),
{
    let lines = split_lines(text);
    let marker = to_chars("version");
    let n = lines.len();
    let ghost ls = views(lines@);
    assert(ls.subrange(0, n as int) =~= ls);
    let mut j: usize = 0;
    while j < n
        invariant
            n == lines@.len(),
            ls == views(lines@),
            ls == lines_of(text@),
            marker@ == "version"@,
            j <= n,
            java_version_in(ls) == java_version_in(ls.subrange(j as int, n as int)),
        decreases n - j,
    {
        let ghost rest = ls.subrange(j as int, n as int);
        assert(rest[0] == lines@[j as int]@);
        assert(rest.drop_first() =~= ls.subrange(j + 1, n as int));
        let line = to_chars(lines[j].as_str());
        if find_text(line.as_slice(), marker.as_slice()) {
            assert(line@.subrange(0, line@.len() as int) =~= line@);
            let parts = split_char(line.as_slice(), 0, line.len(), '"');
            let quoted: Vec<char> = if parts.len() > 1 {
                to_chars(parts[1].as_str())
            } else {
                Vec::new()
            };
            assert(quoted@.subrange(0, quoted@.len() as int) =~= quoted@);
            let segs = split_char(quoted.as_slice(), 0, quoted.len(), '.');
            proof {
                lemma_pieces_nonempty(quoted@, '.');
            }
            let one_dot = has_prefix_at(quoted.as_slice(), 0, &['1', '.']);
            assert(['1', '.']@ =~= seq!['1', '.']);
            proof {
                if 2 <= quoted@.len() {
                    assert(quoted@.subrange(0, 0int + 2) =~= quoted@.subrange(0, 2));
                }
            }
            if one_dot {
                proof {
                    let p = pieces(quoted@, '.');
                    assert(quoted@[1] == '.');
                    lemma_pieces_two(quoted@, '.', 1);
                }
                return segs[1].clone();
            } else {
                return segs[0].clone();
            }
        }
        j = j + 1;
    }
    proof {
        reveal_strlit("unknown");
    }
    "unknown".to_owned()
}

/// With a `c` in `cs`, there are at least two pieces.
proof fn lemma_pieces_two(cs: Seq<char>, c: char, i: int)
    requires
        0 <= i < cs.len(),
        cs[i] == c,
    ensures
        pieces(cs, c).len() >= 2,
    decreases cs.len(),
{
    if i < cs.len() - 1 {
        assert(cs.drop_last()[i] == c);
        lemma_pieces_two(cs.drop_last(), c, i);
        lemma_run_grows(cs, c);
    }
}

proof fn lemma_run_grows(cs: Seq<char>, c: char)
    requires
        cs.len() > 0,
    ensures
        piece_run_len(cs, c) >= piece_run_len(cs.drop_last(), c),
{
}

pub open spec fn piece_run_len(cs: Seq<char>, c: char) -> int {
    crate::text::piece_run(cs, c).0.len() as int
}

/// Reads the major Java version from `java -version` output, or `unknown`.
pub fn parse_java_version(output: &[u8]) -> (r: String)
    ensures
        r@ == or_unknown(java_version_in(lines_of(lossy_text(output@)))),
{
    let text = decode_lossy(output);
    parse_java_version_text(text.as_str())
}

} // verus!
