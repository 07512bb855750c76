//! Reading the installed runtime's version from what `java -version` prints.
use vstd::prelude::*;
use crate::document::views;
use crate::settings::split_lines_of;
use crate::text::has_prefix;

verus! {

/// The major version of a Java installation.
pub struct MajorVersion {
    pub version: u8,
}

/// The marker between the distributor and the quoted version.
pub open spec fn marker() -> Seq<char> {
    seq![' ', 'v', 'e', 'r', 's', 'i', 'o', 'n', ' ', '"']
}

pub open spec fn marker_at(l: Seq<char>, i: int) -> bool {
    0 <= i && i + 10 <= l.len() && l.subrange(i, i + 10) == marker()
}

/// The position of the last quote in `l`, if any.
pub open spec fn last_quote(l: Seq<char>) -> Option<int>
    decreases l.len(),
{
    if l.len() == 0 {
        None
    } else if l.last() == '"' {
        Some(l.len() - 1)
    } else {
        last_quote(l.drop_last())
    }
}

/// The last marker position in `l` before `end`, searching down from `i`.
pub open spec fn last_marker(l: Seq<char>, i: int, end: int) -> Option<int>
    decreases i + 1,
{
    if i < 0 {
        None
    } else if marker_at(l, i) && i + 10 <= end {
        Some(i)
    } else {
        last_marker(l, i - 1, end)
    }
}

/// The distributor and version that a line states: the text before the last
/// marker that a quote follows, and the text from there to the last quote.
pub open spec fn line_version(l: Seq<char>) -> Option<(Seq<char>, Seq<char>)> {
    match last_quote(l) {
        None => None,
        Some(q) => match last_marker(l, l.len() - 10, q) {
            None => None,
            Some(i) => Some((l.subrange(0, i), l.subrange(i + 10, q))),
        },
    }
}

/// The version stated by the first line of `lines` that states one.
pub open spec fn first_version(lines: Seq<Seq<char>>) -> Option<(Seq<char>, Seq<char>)>
    decreases lines.len(),
{
    if lines.len() == 0 {
        None
    } else if line_version(lines[0]) is Some {
        line_version(lines[0])
    } else {
        first_version(lines.drop_first())
    }
}

fn last_quote_of(l: &str, len: usize) -> (r: Option<usize>)
    requires
        len == l@.len(),
    ensures
        match r {
            Some(q) => last_quote(l@) == Some(q as int),
            None => last_quote(l@) is None,
        },
{
    let mut k: usize = len;
    assert(l@.subrange(0, len as int) =~= l@);
    while k > 0
        invariant
            len == l@.len(),
            k <= len,
            last_quote(l@) == last_quote(l@.subrange(0, k as int)),
        decreases k,
    {
        let sub = Ghost(l@.subrange(0, k as int));
        assert(sub@.drop_last() =~= l@.subrange(0, k - 1));
        if l.get_char(k - 1) == '"' {
            return Some(k - 1);
        }
        k = k - 1;
    }
    None
}

fn marker_here(l: &str, len: usize, i: usize) -> (r: bool)
    requires
        len == l@.len(),
    ensures
        r == marker_at(l@, i as int),
{
    if i > len || len - i < 10 {
        return false;
    }
    let piece = l.substring_char(i, i + 10);
    let m = String::from_str(" version \"");
    proof { reveal_strlit(" version \""); }
    assert(m@ =~= marker());
    String::from_str(piece) == m
}

fn version_of_line(l: &str) -> (r: Option<(String, String)>)
    ensures
        match line_version(l@) {
            Some((d, v)) => r matches Some(x) && x.0@ == d && x.1@ == v,
            None => r is None,
        },
{
    let len = l.unicode_len();
    let q = match last_quote_of(l, len) {
        Some(q) => q,
        None => return None,
    };
    proof { lemma_last_quote_bound(l@); }
    if len < 10 {
        proof { lemma_no_marker(l@, len as int - 10, q as int); }
        return None;
    }
    let mut i: usize = len - 10;
    loop
        invariant
            len == l@.len(),
            len >= 10,
            i <= len - 10,
            q < len,
            last_quote(l@) == Some(q as int),
            last_marker(l@, len - 10, q as int) == last_marker(l@, i as int, q as int),
        decreases i,
    {
        if marker_here(l, len, i) && i + 10 <= q {
            let d = String::from_str(l.substring_char(0, i));
            let v = String::from_str(l.substring_char(i + 10, q));
            return Some((d, v));
        }
        if i == 0 {
            return None;
        }
        i = i - 1;
    }
}

proof fn lemma_last_quote_bound(l: Seq<char>)
    ensures
        last_quote(l) matches Some(q) ==> 0 <= q < l.len(),
    decreases l.len(),
{
    if l.len() > 0 {
        lemma_last_quote_bound(l.drop_last());
    }
}

proof fn lemma_no_marker(l: Seq<char>, i: int, end: int)
    requires
        i < 0,
    ensures
        last_marker(l, i, end) is None,
{
}

/// The distributor and version that `java -version` output states, taken
/// from the first line that states them.
pub fn java_version_of(output: &str) -> (r: Option<(String, String)>)
    ensures
        match first_version(lines_of_output(output@)) {
            Some((d, v)) => r matches Some(x) && x.0@ == d && x.1@ == v,
            None => r is None,
        },
{
    let lines = split_lines_of(output);
    let ghost lv = views(lines@);
    let mut i: usize = 0;
    assert(lv.subrange(0, lv.len() as int) =~= lv);
    while i < lines.len()
        invariant
            i <= lines.len(),
            lv == views(lines@),
            lv == lines_of_output(output@),
            first_version(lv) == first_version(lv.subrange(i as int, lv.len() as int)),
        decreases lines.len() - i,
    {
        let ghost rest = lv.subrange(i as int, lv.len() as int);
        assert(rest.drop_first() =~= lv.subrange(i + 1, lv.len() as int));
        assert(rest[0] == lines@[i as int]@);
        match version_of_line(lines[i].as_str()) {
            Some(found) => return Some(found),
            None => {},
        }
        i = i + 1;
    }
    None
}

pub open spec fn lines_of_output(s: Seq<char>) -> Seq<Seq<char>> {
    crate::settings::lines_of(s)
}

pub open spec fn digit_value(c: char) -> int {
    c as int - '0' as int
}

pub open spec fn is_digit(c: char) -> bool {
    '0' <= c && c <= '9'
}

/// The number that `s` spells in decimal digits, if it is all digits.
pub open spec fn number(s: Seq<char>) -> Option<int>
    decreases s.len(),
{
    if s.len() == 0 {
        None
    } else if !is_digit(s.last()) {
        None
    } else if s.len() == 1 {
        Some(digit_value(s.last()))
    } else {
        match number(s.drop_last()) {
            Some(n) => Some(n * 10 + digit_value(s.last())),
            None => None,
        }
    }
}

/// The part of `s` before its first `.`, and the rest after it, if `s` has one.
pub open spec fn dot_pos(s: Seq<char>, i: int) -> Option<int>
    decreases s.len() - i,
{
    if i < 0 || i >= s.len() {
        None
    } else if s[i] == '.' {
        Some(i)
    } else {
        dot_pos(s, i + 1)
    }
}

/// The major version a version string names: the second component of a
/// `1.x` version, the first component of any other.
pub open spec fn major_of(v: Seq<char>) -> Option<int> {
    if has_prefix(v, seq!['1', '.']) {
        let rest = v.subrange(2, v.len() as int);
        match dot_pos(rest, 0) {
            Some(j) => number(rest.subrange(0, j)),
            None => number(rest),
        }
    } else {
        match dot_pos(v, 0) {
            Some(j) => number(v.subrange(0, j)),
            None => None,
        }
    }
}

fn parse_number(s: &str) -> (r: Option<u8>)
    ensures
        match number(s@) {
            Some(n) => if n <= 255 { r == Some(n as u8) } else { r is None },
            None => r is None,
        },
{
    let len = s.unicode_len();
    if len == 0 {
        return None;
    }
    let mut value: u32 = 0;
    let mut i: usize = 0;
    while i < len
        invariant
            len == s@.len(),
            0 < len,
            i <= len,
            i > 0 ==> number(s@.subrange(0, i as int)) == Some(value as int),
            i == 0 ==> value == 0,
            value <= 255,
        decreases len - i,
    {
        let c = s.get_char(i);
        let ghost pre = s@.subrange(0, i as int);
        let ghost now = s@.subrange(0, i + 1);
        assert(now.drop_last() =~= pre);
        assert(now.last() == c);
        if !('0' <= c && c <= '9') {
            proof { lemma_number_none_extends(s@, i as int + 1); }
            return None;
        }
        let d = (c as u32) - ('0' as u32);
        let next = value * 10 + d;
        if next > 255 {
            proof { lemma_number_large_extends(s@, i as int + 1, next as int); }
            return None;
        }
        value = next;
        i = i + 1;
    }
    assert(s@.subrange(0, len as int) =~= s@);
    Some(value as u8)
}

proof fn lemma_number_none_extends(s: Seq<char>, k: int)
    requires
        0 < k <= s.len(),
        number(s.subrange(0, k)) is None,
    ensures
        number(s) is None,
    decreases s.len() - k,
{
    if k < s.len() {
        assert(s.subrange(0, k + 1).drop_last() =~= s.subrange(0, k));
        lemma_number_none_extends(s, k + 1);
    } else {
        assert(s.subrange(0, k) =~= s);
    }
}

proof fn lemma_number_large_extends(s: Seq<char>, k: int, n: int)
    requires
        0 < k <= s.len(),
        number(s.subrange(0, k)) == Some(n),
        n > 255,
    ensures
        number(s) is None || number(s)->Some_0 > 255,
    decreases s.len() - k,
{
    if k < s.len() {
        let next = s.subrange(0, k + 1);
        assert(next.drop_last() =~= s.subrange(0, k));
        if number(next) is Some {
            lemma_number_large_extends(s, k + 1, n * 10 + digit_value(next.last()));
        } else {
            lemma_number_none_extends(s, k + 1);
        }
    } else {
        assert(s.subrange(0, k) =~= s);
    }
}

fn find_dot(s: &str, len: usize) -> (r: Option<usize>)
    requires
        len == s@.len(),
    ensures
        match r {
            Some(j) => dot_pos(s@, 0) == Some(j as int) && j < len,
            None => dot_pos(s@, 0) is None,
        },
{
    let mut j: usize = 0;
    while j < len
        invariant
            len == s@.len(),
            j <= len,
            dot_pos(s@, 0) == dot_pos(s@, j as int),
        decreases len - j,
    {
        if s.get_char(j) == '.' {
            return Some(j);
        }
        j = j + 1;
    }
    None
}

/// The major version that the version string `v` names, when it fits a byte.
pub fn major_version(v: &str) -> (r: Option<u8>)
    ensures
        match major_of(v@) {
            Some(n) => if n <= 255 { r == Some(n as u8) } else { r is None },
            None => r is None,
        },
{
    let len = v.unicode_len();
    let legacy = len >= 2 && v.get_char(0) == '1' && v.get_char(1) == '.';
    proof {
        if has_prefix(v@, seq!['1', '.']) {
            assert(v@.subrange(0, 2)[0] == v@[0]);
            assert(v@.subrange(0, 2)[1] == v@[1]);
        }
        if legacy {
            assert(v@.subrange(0, 2) =~= seq!['1', '.']);
        }
    }
    if legacy {
        let rest = v.substring_char(2, len);
        let rlen = rest.unicode_len();
        match find_dot(rest, rlen) {
            Some(j) => parse_number(rest.substring_char(0, j)),
            None => parse_number(rest),
        }
    } else {
        match find_dot(v, len) {
            Some(j) => parse_number(v.substring_char(0, j)),
            None => None,
        }
    }
}

} // verus!
