//! Character-level text primitives: whitespace, trimming, prefix and
//! substring search, and the split of a file's text into trimmed lines.
//!
//! Every executable function here is stated against a mathematical model
//! over `Seq<char>`, so that the rules built on top can be read as plain
//! statements about sequences of lines.

use vstd::prelude::*;
use vstd::std_specs::iter::IteratorSpec;

verus! {

/// Whether `c` is a Unicode white space character (the code points with the
/// `White_Space` property).
pub open spec fn is_whitespace(c: char) -> bool {
    let n = c as u32;
    ||| 0x09 <= n <= 0x0D
    ||| n == 0x20
    ||| n == 0x85
    ||| n == 0xA0
    ||| n == 0x1680
    ||| 0x2000 <= n <= 0x200A
    ||| n == 0x2028
    ||| n == 0x2029
    ||| n == 0x202F
    ||| n == 0x205F
    ||| n == 0x3000
}

/// The number of consecutive white space characters of `s` that start at
/// index `from`.
pub open spec fn leading_ws(s: Seq<char>, from: int) -> nat
    decreases s.len() - from,
{
    if 0 <= from < s.len() && is_whitespace(s[from]) {
        1 + leading_ws(s, from + 1)
    } else {
        0
    }
}

/// The number of consecutive white space characters of `s` that end just
/// before index `to`.
pub open spec fn trailing_ws(s: Seq<char>, to: int) -> nat
    decreases to,
{
    if 0 < to <= s.len() && is_whitespace(s[to - 1]) {
        1 + trailing_ws(s, to - 1)
    } else {
        0
    }
}

/// `s` without its leading and trailing white space.
pub open spec fn trimmed(s: Seq<char>) -> Seq<char> {
    let a = leading_ws(s, 0) as int;
    if a >= s.len() {
        Seq::empty()
    } else {
        s.subrange(a, s.len() - trailing_ws(s, s.len() as int))
    }
}

/// `s` without its trailing white space.
pub open spec fn trimmed_end(s: Seq<char>) -> Seq<char> {
    s.subrange(0, s.len() - trailing_ws(s, s.len() as int))
}

/// The number of characters from index `from` up to the next line feed, or
/// up to the end of `s` where no line feed follows.
pub open spec fn line_len(s: Seq<char>, from: int) -> nat
    decreases s.len() - from,
{
    if 0 <= from < s.len() && s[from] != '\n' {
        1 + line_len(s, from + 1)
    } else {
        0
    }
}

/// The lines of `s` that start at index `from` or later. A line ends at a
/// line feed, which is not part of it, or at the end of the text; a text that
/// ends in a line feed has no empty line after it.
pub open spec fn lines_from(s: Seq<char>, from: int) -> Seq<Seq<char>>
    decreases s.len() - from,
{
    if 0 <= from < s.len() {
        let end = from + line_len(s, from);
        let line = s.subrange(from, end);
        if end < s.len() {
            seq![line] + lines_from(s, end + 1)
        } else {
            seq![line]
        }
    } else {
        Seq::empty()
    }
}

/// The lines of a text.
pub open spec fn lines_of(s: Seq<char>) -> Seq<Seq<char>> {
    lines_from(s, 0)
}

/// The lines of a text, each without its leading and trailing white space
/// (a carriage return before the line feed is white space, and goes too).
pub open spec fn trimmed_lines(s: Seq<char>) -> Seq<Seq<char>> {
    lines_of(s).map_values(|line: Seq<char>| trimmed(line))
}

/// Whether `s` begins with `pattern`.
pub open spec fn starts_with(s: Seq<char>, pattern: Seq<char>) -> bool {
    pattern.len() <= s.len() && s.subrange(0, pattern.len() as int) == pattern
}

/// Whether `s` ends with `pattern`.
pub open spec fn ends_with(s: Seq<char>, pattern: Seq<char>) -> bool {
    pattern.len() <= s.len() && s.subrange(s.len() - pattern.len(), s.len() as int) == pattern
}

/// Whether `pattern` occurs in `s` at index `at`.
pub open spec fn occurs_at(s: Seq<char>, at: int, pattern: Seq<char>) -> bool {
    0 <= at && at + pattern.len() <= s.len() && s.subrange(at, at + pattern.len()) == pattern
}

/// Whether `pattern` occurs somewhere in `s`.
pub open spec fn contains(s: Seq<char>, pattern: Seq<char>) -> bool {
    exists|at: int| occurs_at(s, at, pattern)
}

/// What a vector of lines stands for: the sequence of their contents.
pub open spec fn lines_view(lines: Seq<Vec<char>>) -> Seq<Seq<char>> {
    Seq::new(lines.len(), |i: int| lines[i]@)
}

/// The characters of a string slice, in order.
pub fn chars_of(s: &str) -> (v: Vec<char>)
    ensures
        v@ == s@,
{
    let mut v: Vec<char> = Vec::new();
    let chars = s.chars();
    for c in it: chars
        invariant
            v@ == it.seq().take(it.index()),
            it.seq() == s@,
    {
        v.push(c);
    }
    v
}

/// Tells whether a character is white space.
pub fn is_whitespace_char(c: char) -> (b: bool)
    ensures
        b == is_whitespace(c),
{
    let n: u32 = c as u32;
    (0x09 <= n && n <= 0x0D) || n == 0x20 || n == 0x85 || n == 0xA0 || n == 0x1680 || (0x2000 <= n
        && n <= 0x200A) || n == 0x2028 || n == 0x2029 || n == 0x202F || n == 0x205F || n == 0x3000
}

/// A copy of `line` without its leading and trailing white space.
pub fn trim(line: &Vec<char>) -> (t: Vec<char>)
    ensures
        t@ == trimmed(line@),
{
    let n = line.len();
    let mut a: usize = 0;
    while a < n && is_whitespace_char(line[a])
        invariant
            a <= n,
            n == line.len(),
            leading_ws(line@, 0) == a + leading_ws(line@, a as int),
        decreases n - a,
    {
        a += 1;
    }
    let mut t: Vec<char> = Vec::new();
    if a >= n {
        assert(leading_ws(line@, n as int) == 0);
        return t;
    }
    assert(leading_ws(line@, a as int) == 0);
    let mut b: usize = n;
    while b > a && is_whitespace_char(line[b - 1])
        invariant
            a < b <= n,
            n == line.len(),
            !is_whitespace(line@[a as int]),
            trailing_ws(line@, n as int) == (n - b) + trailing_ws(line@, b as int),
        decreases b,
    {
        b -= 1;
    }
    assert(trailing_ws(line@, b as int) == 0);
    let mut i: usize = a;
    while i < b
        invariant
            a <= i <= b <= n,
            n == line.len(),
            t@ == line@.subrange(a as int, i as int),
        decreases b - i,
    {
        t.push(line[i]);
        assert(line@.subrange(a as int, i as int).push(line@[i as int]) == line@.subrange(
            a as int,
            i + 1,
        ));
        i += 1;
    }
    t
}

/// The length of `line` without its trailing white space.
pub fn trim_end_len(line: &Vec<char>) -> (n: usize)
    ensures
        n == line@.len() - trailing_ws(line@, line@.len() as int),
        n <= line@.len(),
{
    let len = line.len();
    let mut b: usize = len;
    while b > 0 && is_whitespace_char(line[b - 1])
        invariant
            b <= len,
            len == line.len(),
            trailing_ws(line@, len as int) == (len - b) + trailing_ws(line@, b as int),
        decreases b,
    {
        b -= 1;
    }
    assert(trailing_ws(line@, b as int) == 0);
    b
}

/// The trimmed lines of a text.
pub fn split_trimmed_lines(content: &Vec<char>) -> (lines: Vec<Vec<char>>)
    ensures
        lines_view(lines@) == trimmed_lines(content@),
{
    let n = content.len();
    let mut lines: Vec<Vec<char>> = Vec::new();
    let mut cur: Vec<char> = Vec::new();
    let mut start: usize = 0;
    let mut i: usize = 0;
    let ghost mut raw: Seq<Seq<char>> = Seq::empty();
    while i < n
        invariant
            start <= i <= n,
            n == content.len(),
            cur@ == content@.subrange(start as int, i as int),
            line_len(content@, start as int) == (i - start) + line_len(content@, i as int),
            lines_of(content@) == raw + lines_from(content@, start as int),
            lines.len() == raw.len(),
            forall|k: int| 0 <= k < raw.len() ==> (#[trigger] lines[k])@ == trimmed(raw[k]),
        decreases n - i,
    {
        let c = content[i];
        if c == '\n' {
            let t = trim(&cur);
            proof {
                let rest = lines_from(content@, i + 1);
                assert(lines_from(content@, start as int) == seq![cur@] + rest);
                assert(raw + (seq![cur@] + rest) =~= raw.push(cur@) + rest);
                raw = raw.push(cur@);
            }
            lines.push(t);
            cur = Vec::new();
            start = i + 1;
        } else {
            cur.push(c);
            assert(content@.subrange(start as int, i as int).push(c) == content@.subrange(
                start as int,
                i + 1,
            ));
        }
        i += 1;
    }
    if start < n {
        let t = trim(&cur);
        proof {
            assert(line_len(content@, n as int) == 0);
            assert(lines_from(content@, start as int) == seq![cur@]);
            assert(raw + seq![cur@] =~= raw.push(cur@));
            raw = raw.push(cur@);
        }
        lines.push(t);
    }
    assert(lines_view(lines@) =~= trimmed_lines(content@));
    lines
}

/// Tells whether `pattern` occurs in `line` at index `at`.
pub fn matches_at(line: &Vec<char>, at: usize, pattern: &Vec<char>) -> (b: bool)
    ensures
        b == occurs_at(line@, at as int, pattern@),
{
    let m = pattern.len();
    if at > line.len() || m > line.len() - at {
        return false;
    }
    let mut j: usize = 0;
    while j < m
        invariant
            j <= m,
            m == pattern.len(),
            at + m <= line.len(),
            forall|k: int| 0 <= k < j ==> line@[at + k] == pattern@[k],
        decreases m - j,
    {
        if line[at + j] != pattern[j] {
            assert(line@.subrange(at as int, at + m)[j as int] != pattern@[j as int]);
            return false;
        }
        j += 1;
    }
    assert(line@.subrange(at as int, at + m) =~= pattern@);
    true
}

/// Tells whether `line` begins with `pattern`.
pub fn line_starts_with(line: &Vec<char>, pattern: &Vec<char>) -> (b: bool)
    ensures
        b == starts_with(line@, pattern@),
{
    matches_at(line, 0, pattern)
}

/// Tells whether `line` ends with `pattern`.
pub fn line_ends_with(line: &Vec<char>, pattern: &Vec<char>) -> (b: bool)
    ensures
        b == ends_with(line@, pattern@),
{
    if pattern.len() > line.len() {
        return false;
    }
    matches_at(line, line.len() - pattern.len(), pattern)
}

/// Tells whether `pattern` occurs somewhere in `line`.
pub fn line_contains(line: &Vec<char>, pattern: &Vec<char>) -> (b: bool)
    ensures
        b == contains(line@, pattern@),
{
    let n = line.len();
    let m = pattern.len();
    if m > n {
        return false;
    }
    let last: usize = n - m;
    let mut at: usize = 0;
    while at < last
        invariant
            at <= last,
            last == n - m,
            n == line.len(),
            m == pattern.len(),
            forall|k: int| 0 <= k < at ==> !occurs_at(line@, k, pattern@),
        decreases last - at,
    {
        if matches_at(line, at, pattern) {
            return true;
        }
        at += 1;
    }
    matches_at(line, last, pattern)
}

} // verus!
