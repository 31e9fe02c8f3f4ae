//! Character-level text helpers. A string is seen through its view, the
//! `Seq<char>` of its Unicode scalar values; every position here counts
//! characters, never bytes.

use vstd::prelude::*;

verus! {

/// Appends one character to a string (std `String::push`).
#[verifier::external_body]
fn push_char(s: &mut String, c: char)
    ensures
        final(s)@ == old(s)@.push(c),
{
    s.push(c);
}

/// The characters of `s`, in order.
pub fn chars_of(s: &str) -> (v: Vec<char>)
    ensures
        v@ == s@,
{
    let mut v: Vec<char> = Vec::new();
    for c in it: s.chars()
        invariant
            v@ == it.seq().take(it.index() as int),
            it.seq() == s@,
    {
        v.push(c);
    }
    v
}

/// The string made of `cs[from..to]`.
pub fn string_of_range(cs: &Vec<char>, from: usize, to: usize) -> (s: String)
    requires
        from <= to <= cs.len(),
    ensures
        s@ == cs@.subrange(from as int, to as int),
{
    let mut s = String::new();
    let mut i: usize = from;
    while i < to
        invariant
            from <= i <= to <= cs.len(),
            s@ == cs@.subrange(from as int, i as int),
        decreases to - i,
    {
        push_char(&mut s, cs[i]);
        assert(cs@.subrange(from as int, i as int).push(cs@[i as int]) =~= cs@.subrange(
            from as int,
            i + 1,
        ));
        i = i + 1;
    }
    s
}

/// The string made of the characters `cs`.
pub fn string_of(cs: &Vec<char>) -> (s: String)
    ensures
        s@ == cs@,
{
    let s = string_of_range(cs, 0, cs.len());
    assert(cs@.subrange(0, cs@.len() as int) =~= cs@);
    s
}

/// Appends the characters of `t` to `s`.
pub fn push_str(s: &mut String, t: &str)
    ensures
        final(s)@ == old(s)@ + t@,
{
    let cs = chars_of(t);
    let mut i: usize = 0;
    while i < cs.len()
        invariant
            i <= cs.len(),
            cs@ == t@,
            s@ == old(s)@ + cs@.take(i as int),
        decreases cs.len() - i,
    {
        push_char(s, cs[i]);
        assert(old(s)@ + cs@.take(i as int) + seq![cs@[i as int]] =~= old(s)@ + cs@.take(i + 1));
        i = i + 1;
    }
    assert(cs@.take(cs.len() as int) =~= cs@);
}

/// A new string holding the characters of `t`.
pub fn owned(t: &str) -> (s: String)
    ensures
        s@ == t@,
{
    t.to_owned()
}

/// The number of characters of `s`.
pub fn char_count(s: &str) -> (n: usize)
    ensures
        n == s@.len(),
{
    chars_of(s).len()
}

// ---------------------------------------------------------------------------
// Whitespace and trimming
// ---------------------------------------------------------------------------
/// Unicode `White_Space`, the set that `char::is_whitespace` and `str::trim` use.
pub open spec fn is_ws(c: char) -> bool {
    let u = c as u32;
    (0x9 <= u && u <= 0xd) || u == 0x20 || u == 0x85 || u == 0xa0 || u == 0x1680 || (0x2000 <= u
        && u <= 0x200a) || u == 0x2028 || u == 0x2029 || u == 0x202f || u == 0x205f || u == 0x3000
}

pub fn is_whitespace(c: char) -> (b: bool)
    ensures
        b == is_ws(c),
{
    let u = c as u32;
    (0x9 <= u && u <= 0xd) || u == 0x20 || u == 0x85 || u == 0xa0 || u == 0x1680 || (0x2000 <= u
        && u <= 0x200a) || u == 0x2028 || u == 0x2029 || u == 0x202f || u == 0x205f || u == 0x3000
}

/// The first index at or after `i` that does not hold whitespace (or `i` past the end).
pub open spec fn ws_prefix_end(s: Seq<char>, i: int) -> int
    decreases s.len() - i,
{
    if 0 <= i < s.len() && is_ws(s[i]) {
        ws_prefix_end(s, i + 1)
    } else {
        i
    }
}

/// The end of `s[..j]` once its trailing whitespace is dropped.
pub open spec fn ws_suffix_start(s: Seq<char>, j: int) -> int
    decreases j,
{
    if 0 < j <= s.len() && is_ws(s[j - 1]) {
        ws_suffix_start(s, j - 1)
    } else {
        j
    }
}

/// `s` without its leading and trailing whitespace (`str::trim`).
pub open spec fn trimmed(s: Seq<char>) -> Seq<char> {
    let a = ws_prefix_end(s, 0);
    let b = ws_suffix_start(s, s.len() as int);
    if a < b {
        s.subrange(a, b)
    } else {
        Seq::empty()
    }
}

/// `s` holds whitespace only.
pub open spec fn is_blank(s: Seq<char>) -> bool {
    trimmed(s).len() == 0
}

/// The bounds of `cs` once leading and trailing whitespace are dropped.
pub fn trim_bounds(cs: &Vec<char>) -> (r: (usize, usize))
    ensures
        r.0 == ws_prefix_end(cs@, 0),
        r.1 == ws_suffix_start(cs@, cs@.len() as int),
        r.0 < r.1 ==> r.1 <= cs.len(),
        !(r.0 < r.1) ==> trimmed(cs@).len() == 0,
        r.0 < r.1 ==> trimmed(cs@) == cs@.subrange(r.0 as int, r.1 as int),
{
    let mut a: usize = 0;
    while a < cs.len() && is_whitespace(cs[a])
        invariant
            a <= cs.len(),
            ws_prefix_end(cs@, 0) == ws_prefix_end(cs@, a as int),
        decreases cs.len() - a,
    {
        a = a + 1;
    }
    let mut b: usize = cs.len();
    while b > 0 && is_whitespace(cs[b - 1])
        invariant
            b <= cs.len(),
            ws_suffix_start(cs@, cs@.len() as int) == ws_suffix_start(cs@, b as int),
        decreases b,
    {
        b = b - 1;
    }
    (a, b)
}

/// `str::trim`, into a new string.
pub fn trim(s: &str) -> (r: String)
    ensures
        r@ == trimmed(s@),
{
    let cs = chars_of(s);
    let (a, b) = trim_bounds(&cs);
    if a < b {
        string_of_range(&cs, a, b)
    } else {
        String::new()
    }
}

/// Whether `s` holds whitespace only (`s.trim().is_empty()`).
pub fn blank(s: &str) -> (b: bool)
    ensures
        b == is_blank(s@),
{
    let cs = chars_of(s);
    let (a, b) = trim_bounds(&cs);
    !(a < b)
}

// ---------------------------------------------------------------------------
// Truncation
// ---------------------------------------------------------------------------
/// The first `max_chars` characters of `s`, followed by an ellipsis when some were cut.
pub open spec fn truncated(s: Seq<char>, max_chars: int) -> Seq<char> {
    if s.len() <= max_chars {
        s
    } else {
        s.take(max_chars).push('…')
    }
}

/// Keeps at most `max_chars` characters of `s`; marks a cut with `…`.
pub fn truncate_chars(s: &str, max_chars: usize) -> (r: String)
    ensures
        r@ == truncated(s@, max_chars as int),
{
    let cs = chars_of(s);
    if cs.len() <= max_chars {
        string_of(&cs)
    } else {
        let mut out = string_of_range(&cs, 0, max_chars);
        push_char(&mut out, '…');
        out
    }
}

/// What `summarize_output` makes of an agent's text.
pub open spec fn output_summary(text: Seq<char>, max_chars: int) -> Seq<char> {
    let t = trimmed(text);
    if t.len() == 0 {
        "(no output)"@
    } else if t.len() <= max_chars {
        t
    } else {
        truncated(t, max_chars)
    }
}

/// The trimmed text, cut to `max_chars` characters, or `(no output)` when blank.
pub fn summarize_output(text: &str, max_chars: usize) -> (r: String)
    ensures
        r@ == output_summary(text@, max_chars as int),
{
    let t = trim(text);
    let n = char_count(t.as_str());
    if n == 0 {
        return owned("(no output)");
    }
    if n <= max_chars {
        return t;
    }
    truncate_chars(t.as_str(), max_chars)
}

// ---------------------------------------------------------------------------
// Searching
// ---------------------------------------------------------------------------
/// `needle` occurs in `hay` at character position `i`.
pub open spec fn occurs_at(hay: Seq<char>, needle: Seq<char>, i: int) -> bool {
    0 <= i && i + needle.len() <= hay.len() && hay.subrange(i, i + needle.len()) == needle
}

/// `needle` occurs somewhere in `hay` (`str::contains`).
pub open spec fn contains_seq(hay: Seq<char>, needle: Seq<char>) -> bool {
    exists|i: int| occurs_at(hay, needle, i)
}

fn matches_at(hay: &Vec<char>, needle: &Vec<char>, i: usize) -> (b: bool)
    requires
        i + needle.len() <= hay.len(),
    ensures
        b == occurs_at(hay@, needle@, i as int),
{
    let mut j: usize = 0;
    while j < needle.len()
        invariant
            j <= needle.len(),
            i + needle.len() <= hay.len(),
            hay@.subrange(i as int, i + j) =~= needle@.take(j as int),
        decreases needle.len() - j,
    {
        if hay[i + j] != needle[j] {
            assert(hay@.subrange(i as int, i + needle.len())[j as int] != needle@[j as int]);
            return false;
        }
        j = j + 1;
        assert(hay@.subrange(i as int, i + j) =~= needle@.take(j as int));
    }
    assert(needle@.take(needle.len() as int) =~= needle@);
    true
}

/// Whether `needle` occurs in `hay`.
pub fn contains(hay: &str, needle: &str) -> (b: bool)
    ensures
        b == contains_seq(hay@, needle@),
{
    let h = chars_of(hay);
    let n = chars_of(needle);
    if n.len() > h.len() {
        assert forall|i: int| !occurs_at(hay@, needle@, i) by {}
        return false;
    }
    let last = h.len() - n.len();
    let mut i: usize = 0;
    while i < last
        invariant
            h@ == hay@,
            n@ == needle@,
            last == h.len() - n.len(),
            i <= last,
            forall|k: int| 0 <= k < i ==> !occurs_at(hay@, needle@, k),
        decreases last - i,
    {
        if matches_at(&h, &n, i) {
            return true;
        }
        i = i + 1;
    }
    if matches_at(&h, &n, last) {
        return true;
    }
    assert forall|k: int| !occurs_at(hay@, needle@, k) by {
        if 0 <= k < last {
        }
    }
    false
}

// ---------------------------------------------------------------------------
// Lines and columns
// ---------------------------------------------------------------------------
/// The 0-based (line, column) of character position `k` of `s`.
pub open spec fn line_col_at(s: Seq<char>, k: int) -> (int, int)
    decreases k,
{
    if k <= 0 {
        (0, 0)
    } else {
        let p = line_col_at(s, k - 1);
        if s[k - 1] == '\n' {
            (p.0 + 1, 0)
        } else {
            (p.0, p.1 + 1)
        }
    }
}

pub open spec fn min_int(a: int, b: int) -> int {
    if a <= b {
        a
    } else {
        b
    }
}

proof fn lemma_line_col_bounds(s: Seq<char>, k: int)
    requires
        0 <= k,
    ensures
        0 <= line_col_at(s, k).0 <= k,
        0 <= line_col_at(s, k).1 <= k,
    decreases k,
{
    if k > 0 {
        lemma_line_col_bounds(s, k - 1);
    }
}

/// 0-based (line, column) for a character-index cursor; a cursor past the end
/// stands at the end.
pub fn line_col(text: &str, cursor: usize) -> (r: (usize, usize))
    ensures
        r.0 == line_col_at(text@, min_int(cursor as int, text@.len() as int)).0,
        r.1 == line_col_at(text@, min_int(cursor as int, text@.len() as int)).1,
{
    let cs = chars_of(text);
    let k = if cursor < cs.len() {
        cursor
    } else {
        cs.len()
    };
    let mut line: usize = 0;
    let mut col: usize = 0;
    let mut i: usize = 0;
    while i < k
        invariant
            i <= k <= cs.len(),
            cs@ == text@,
            line == line_col_at(cs@, i as int).0,
            col == line_col_at(cs@, i as int).1,
        decreases k - i,
    {
        proof {
            lemma_line_col_bounds(cs@, i as int);
        }
        if cs[i] == '\n' {
            line = line + 1;
            col = 0;
        } else {
            col = col + 1;
        }
        i = i + 1;
    }
    (line, col)
}

/// The first index at or after `st` that holds a newline, or the length.
pub open spec fn line_end_from(s: Seq<char>, st: int) -> int
    decreases s.len() - st,
{
    if st >= s.len() {
        s.len() as int
    } else if st >= 0 && s[st] == '\n' {
        st
    } else {
        line_end_from(s, st + 1)
    }
}

/// The first line of `s` from position `st` on (lines end at newlines) that
/// is not blank, trimmed; empty when every such line is blank.
pub open spec fn first_filled_line(s: Seq<char>, st: int) -> Seq<char>
    decreases s.len() + 1 - st,
{
    if st < 0 || st > s.len() {
        Seq::empty()
    } else {
        let e = line_end_from(s, st);
        proof {
            lemma_line_end_from_bounds(s, st);
        }
        let l = trimmed(s.subrange(st, e));
        if l.len() > 0 {
            l
        } else if e >= s.len() {
            Seq::empty()
        } else {
            first_filled_line(s, e + 1)
        }
    }
}

/// Where line `n` of `s` starts, if `s` has that many lines.
pub open spec fn line_start(s: Seq<char>, n: nat) -> Option<int>
    decreases n,
{
    if n == 0 {
        Some(0)
    } else {
        match line_start(s, (n - 1) as nat) {
            Some(st) => {
                let e = line_end_from(s, st);
                if e < s.len() {
                    Some(e + 1)
                } else {
                    None
                }
            },
            None => None,
        }
    }
}

/// The cursor for (line, column): clamped to the end of that line, or the
/// end of the text when the line does not exist.
pub open spec fn cursor_at(s: Seq<char>, line: nat, col: nat) -> int {
    match line_start(s, line) {
        Some(st) => min_int(st + col, line_end_from(s, st)),
        None => s.len() as int,
    }
}

/// Where the line through `st` ends: at or after `st`, at a newline or the end.
pub proof fn lemma_line_end_from_bounds(s: Seq<char>, st: int)
    requires
        0 <= st,
    ensures
        st <= line_end_from(s, st) || st > s.len(),
        line_end_from(s, st) <= s.len(),
        line_end_from(s, st) < s.len() ==> s[line_end_from(s, st)] == '\n',
        forall|i: int| st <= i < line_end_from(s, st) ==> s[i] != '\n',
    decreases s.len() - st,
{
    if st < s.len() && s[st] != '\n' {
        lemma_line_end_from_bounds(s, st + 1);
    }
}

proof fn lemma_line_start_bounds(s: Seq<char>, n: nat)
    ensures
        line_start(s, n) matches Some(st) ==> 0 <= st <= s.len(),
    decreases n,
{
    if n > 0 {
        lemma_line_start_bounds(s, (n - 1) as nat);
        if let Some(st) = line_start(s, (n - 1) as nat) {
            lemma_line_end_from_bounds(s, st);
        }
    }
}

/// No newline in `s[a..b]` means the line that runs through `a` ends where the one through `b` does.
proof fn lemma_line_end_same(s: Seq<char>, a: int, b: int)
    requires
        0 <= a <= b <= s.len(),
        forall|i: int| a <= i < b ==> s[i] != '\n',
    ensures
        line_end_from(s, a) == line_end_from(s, b),
    decreases b - a,
{
    if a < b {
        lemma_line_end_same(s, a + 1, b);
    }
}

/// The (line, column) of a position names the start of its line and a run without newlines.
proof fn lemma_line_col_start(s: Seq<char>, k: int)
    requires
        0 <= k <= s.len(),
    ensures
        0 <= line_col_at(s, k).1 <= k,
        line_col_at(s, k).0 >= 0,
        line_start(s, line_col_at(s, k).0 as nat) == Some(k - line_col_at(s, k).1),
        forall|i: int| k - line_col_at(s, k).1 <= i < k ==> s[i] != '\n',
    decreases k,
{
    lemma_line_col_bounds(s, k);
    if k > 0 {
        lemma_line_col_start(s, k - 1);
        let p = line_col_at(s, k - 1);
        let st = k - 1 - p.1;
        if s[k - 1] == '\n' {
            lemma_line_end_same(s, st, k - 1);
            assert(line_end_from(s, k - 1) == k - 1);
            assert(line_start(s, (p.0 + 1) as nat) == Some(k));
        }
    }
}

/// A cursor turned into (line, column) and back lands where it started, once
/// clamped to the text.
pub proof fn lemma_cursor_roundtrip(s: Seq<char>, cursor: int)
    requires
        0 <= cursor,
    ensures
        ({
            let k = min_int(cursor, s.len() as int);
            let lc = line_col_at(s, k);
            cursor_at(s, lc.0 as nat, lc.1 as nat) == k
        }),
{
    let k = min_int(cursor, s.len() as int);
    lemma_line_col_start(s, k);
    let lc = line_col_at(s, k);
    let st = k - lc.1;
    lemma_line_end_same(s, st, k);
    lemma_line_end_from_bounds(s, k);
}

/// The end of the line that runs through `st`.
fn line_end(cs: &Vec<char>, st: usize) -> (e: usize)
    requires
        st <= cs.len(),
    ensures
        e == line_end_from(cs@, st as int),
        st <= e <= cs.len(),
{
    let mut e: usize = st;
    while e < cs.len() && cs[e] != '\n'
        invariant
            st <= e <= cs.len(),
            line_end_from(cs@, st as int) == line_end_from(cs@, e as int),
        decreases cs.len() - e,
    {
        e = e + 1;
    }
    e
}

/// The first non-blank line of `s`, trimmed; empty when there is none.
pub fn first_nonblank_line(s: &str) -> (r: String)
    ensures
        r@ == first_filled_line(s@, 0),
{
    let cs = chars_of(s);
    let mut st: usize = 0;
    loop
        invariant
            st <= cs.len(),
            cs@ == s@,
            first_filled_line(cs@, 0) == first_filled_line(cs@, st as int),
        decreases cs.len() - st,
    {
        let e = line_end(&cs, st);
        let line = string_of_range(&cs, st, e);
        let l = trim(line.as_str());
        if char_count(l.as_str()) > 0 {
            return l;
        }
        if e >= cs.len() {
            return String::new();
        }
        st = e + 1;
    }
}

/// The character index of (`target_line`, `target_col`): clamped to the end
/// of that line, or the end of the text when the line does not exist.
pub fn cursor_at_line_col(text: &str, target_line: usize, target_col: usize) -> (r: usize)
    ensures
        r == cursor_at(text@, target_line as nat, target_col as nat),
        r <= text@.len(),
{
    let cs = chars_of(text);
    let mut st: usize = 0;
    let mut n: usize = 0;
    while n < target_line
        invariant
            n <= target_line,
            cs@ == text@,
            st <= cs.len(),
            line_start(cs@, n as nat) == Some(st as int),
        decreases target_line - n,
    {
        let e = line_end(&cs, st);
        if e == cs.len() {
            assert(line_start(cs@, (n + 1) as nat) is None);
            proof {
                lemma_line_start_none_stays(cs@, (n + 1) as nat, target_line as nat);
            }
            return cs.len();
        }
        st = e + 1;
        n = n + 1;
    }
    let e = line_end(&cs, st);
    if target_col < e - st {
        st + target_col
    } else {
        e
    }
}

proof fn lemma_line_start_none_stays(s: Seq<char>, n: nat, m: nat)
    requires
        n <= m,
        line_start(s, n) is None,
    ensures
        line_start(s, m) is None,
    decreases m - n,
{
    if n < m {
        lemma_line_start_none_stays(s, n, (m - 1) as nat);
    }
}

// ---------------------------------------------------------------------------
// Editing at a character index
// ---------------------------------------------------------------------------
/// `s` with `ch` inserted before character `idx`, or at the end when `idx` is past it.
pub open spec fn inserted_at(s: Seq<char>, idx: int, ch: char) -> Seq<char> {
    s.insert(min_int(idx, s.len() as int), ch)
}

/// `s` without character `idx`; unchanged when there is no such character.
pub open spec fn removed_at(s: Seq<char>, idx: int) -> Seq<char> {
    if 0 <= idx < s.len() {
        s.remove(idx)
    } else {
        s
    }
}

/// Inserts `ch` before character `char_idx` (at the end when past it).
pub fn insert_char(s: &mut String, char_idx: usize, ch: char)
    ensures
        final(s)@ == inserted_at(old(s)@, char_idx as int, ch),
{
    let mut cs = chars_of(s.as_str());
    let k = if char_idx < cs.len() {
        char_idx
    } else {
        cs.len()
    };
    cs.insert(k, ch);
    *s = string_of(&cs);
}

/// Removes character `char_idx`, if there is one.
pub fn remove_char(s: &mut String, char_idx: usize)
    ensures
        final(s)@ == removed_at(old(s)@, char_idx as int),
{
    let mut cs = chars_of(s.as_str());
    if char_idx < cs.len() {
        cs.remove(char_idx);
        *s = string_of(&cs);
    }
}

/// The text with a cursor mark `▏` before character `cursor` (at the end when
/// past it); the text itself when `show` is off.
pub fn with_cursor(text: &str, cursor: usize, show: bool) -> (r: String)
    ensures
        show ==> r@ == inserted_at(text@, cursor as int, '▏'),
        !show ==> r@ == text@,
{
    let mut out = owned(text);
    if show {
        insert_char(&mut out, cursor, '▏');
    }
    out
}

// ---------------------------------------------------------------------------
// Numbers
// ---------------------------------------------------------------------------
pub const DIGITS: [char; 10] = ['0', '1', '2', '3', '4', '5', '6', '7', '8', '9'];

/// The ASCII digit for `d < 10`.
pub open spec fn digit_char(d: nat) -> char {
    DIGITS@[d as int]
}

/// The decimal notation of `n`, without leading zeros.
pub open spec fn decimal(n: nat) -> Seq<char>
    decreases n,
{
    if n < 10 {
        seq![digit_char(n)]
    } else {
        decimal(n / 10).push(digit_char(n % 10))
    }
}

/// The decimal notation of a signed number.
pub open spec fn signed_decimal(n: int) -> Seq<char> {
    if n < 0 {
        seq!['-'] + decimal((-n) as nat)
    } else {
        decimal(n as nat)
    }
}

/// Appends the decimal notation of `n`.
pub fn push_decimal(out: &mut String, n: u64)
    ensures
        final(out)@ == old(out)@ + decimal(n as nat),
    decreases n,
{
    if n >= 10 {
        push_decimal(out, n / 10);
    }
    let d = (n % 10) as usize;
    push_char(out, DIGITS[d]);
    assert(old(out)@ + decimal(n as nat) =~= old(out)@ + (if n >= 10 {
        decimal((n / 10) as nat)
    } else {
        Seq::empty()
    }) + seq![digit_char((n % 10) as nat)]);
}

/// Appends the decimal notation of a signed `n`, with `-` when negative.
pub fn push_signed_decimal(out: &mut String, n: i64)
    ensures
        final(out)@ == old(out)@ + signed_decimal(n as int),
{
    if n < 0 {
        push_char(out, '-');
        let m: u64 = if n == i64::MIN {
            9223372036854775808u64
        } else {
            (-n) as u64
        };
        push_decimal(out, m);
        assert(old(out)@ + signed_decimal(n as int) =~= old(out)@.push('-') + decimal(m as nat));
    } else {
        push_decimal(out, n as u64);
    }
}

/// The decimal notation of `n` as a new string.
pub fn decimal_string(n: u64) -> (r: String)
    ensures
        r@ == decimal(n as nat),
{
    let mut out = String::new();
    push_decimal(&mut out, n);
    assert(Seq::<char>::empty() + decimal(n as nat) =~= decimal(n as nat));
    out
}

/// The value of an ASCII digit character, if it is one.
pub open spec fn digit_value(c: char) -> Option<nat> {
    let u = c as u32;
    if 48 <= u && u <= 57 {
        Some((u - 48) as nat)
    } else {
        None
    }
}

/// `s` is one or more ASCII digits.
pub open spec fn all_digits(s: Seq<char>) -> bool {
    s.len() > 0 && forall|i: int| 0 <= i < s.len() ==> (#[trigger] digit_value(s[i])) is Some
}

/// The number written by the ASCII digits `s`.
pub open spec fn digits_value(s: Seq<char>) -> nat
    decreases s.len(),
{
    if s.len() == 0 {
        0
    } else {
        10 * digits_value(s.drop_last()) + match digit_value(s.last()) {
            Some(d) => d,
            None => 0,
        }
    }
}

/// What `str::parse::<u64>` gives: an optional `+`, then one or more ASCII
/// digits whose value fits in a `u64`.
pub open spec fn parsed_u64(s: Seq<char>) -> Option<u64> {
    let d = unsigned_digits(s);
    if all_digits(d) && digits_value(d) <= u64::MAX {
        Some(digits_value(d) as u64)
    } else {
        None
    }
}

/// `s` without one leading `+`.
pub open spec fn unsigned_digits(s: Seq<char>) -> Seq<char> {
    if s.len() > 0 && s[0] == '+' {
        s.drop_first()
    } else {
        s
    }
}

proof fn lemma_digits_value_prefix(s: Seq<char>, i: int)
    requires
        0 <= i < s.len(),
    ensures
        s.take(i + 1).drop_last() == s.take(i),
        s.take(i + 1).last() == s[i],
{
    assert(s.take(i + 1).drop_last() =~= s.take(i));
}

proof fn lemma_digits_value_mono(s: Seq<char>, i: int)
    requires
        0 <= i <= s.len(),
    ensures
        digits_value(s.take(i)) <= digits_value(s),
    decreases s.len() - i,
{
    if i < s.len() {
        lemma_digits_value_mono(s, i + 1);
        lemma_digits_value_prefix(s, i);
        assert(digits_value(s.take(i + 1)) >= digits_value(s.take(i)));
    } else {
        assert(s.take(i) =~= s);
    }
}

/// `str::parse::<u64>` on the digits of `s`.
pub fn parse_u64(s: &str) -> (r: Option<u64>)
    ensures
        r == parsed_u64(s@),
{
    let cs = chars_of(s);
    let start: usize = if cs.len() > 0 && cs[0] == '+' {
        1
    } else {
        0
    };
    let ghost d = unsigned_digits(s@);
    assert(d =~= cs@.subrange(start as int, cs@.len() as int));
    if start >= cs.len() {
        return None;
    }
    let mut value: u64 = 0;
    let mut i: usize = start;
    while i < cs.len()
        invariant
            start <= i <= cs.len(),
            start < cs.len(),
            d == unsigned_digits(s@),
            d == cs@.subrange(start as int, cs@.len() as int),
            value == digits_value(d.take(i - start)),
            forall|j: int| 0 <= j < i - start ==> (#[trigger] digit_value(d[j])) is Some,
        decreases cs.len() - i,
    {
        let c = cs[i];
        let u = c as u32;
        proof {
            lemma_digits_value_prefix(d, i - start);
        }
        if !(48 <= u && u <= 57) {
            assert(digit_value(d[i - start]) is None);
            assert(!all_digits(d));
            return None;
        }
        let dv: u64 = (u - 48) as u64;
        match value.checked_mul(10) {
            Some(m) => match m.checked_add(dv) {
                Some(v2) => {
                    value = v2;
                },
                None => {
                    proof {
                        lemma_digits_value_mono(d, i - start + 1);
                        assert(digits_value(d.take(i - start + 1)) == 10 * value + dv);
                    }
                    return None;
                },
            },
            None => {
                proof {
                    lemma_digits_value_mono(d, i - start + 1);
                    assert(digits_value(d.take(i - start + 1)) == 10 * value + dv);
                }
                return None;
            },
        }
        i = i + 1;
    }
    assert(d.take(i - start) =~= d);
    Some(value)
}

// ---------------------------------------------------------------------------
// ASCII case
// ---------------------------------------------------------------------------
/// `char::to_ascii_lowercase`.
pub open spec fn ascii_lower(c: char) -> char {
    if 65 <= (c as u32) && (c as u32) <= 90 {
        ((c as u32) + 32) as char
    } else {
        c
    }
}

pub fn to_ascii_lower(c: char) -> (r: char)
    ensures
        r == ascii_lower(c),
{
    let u = c as u32;
    if 65 <= u && u <= 90 {
        let b: u8 = (u + 32) as u8;
        b as char
    } else {
        c
    }
}

/// `str::to_ascii_lowercase`.
pub open spec fn ascii_lowered(s: Seq<char>) -> Seq<char> {
    s.map_values(|c: char| ascii_lower(c))
}

pub fn lowercase_ascii(s: &str) -> (r: String)
    ensures
        r@ == ascii_lowered(s@),
{
    let cs = chars_of(s);
    let mut out: Vec<char> = Vec::new();
    let mut i: usize = 0;
    while i < cs.len()
        invariant
            i <= cs.len(),
            cs@ == s@,
            out@ =~= ascii_lowered(cs@.take(i as int)),
        decreases cs.len() - i,
    {
        out.push(to_ascii_lower(cs[i]));
        i = i + 1;
        assert(out@ =~= ascii_lowered(cs@.take(i as int)));
    }
    assert(cs@.take(cs.len() as int) =~= cs@);
    string_of(&out)
}

/// Whether two strings hold the same characters.
pub fn same_text(a: &str, b: &str) -> (r: bool)
    ensures
        r == (a@ == b@),
{
    let x = owned(a);
    let y = owned(b);
    x == y
}

} // verus!
