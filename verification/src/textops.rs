use vstd::prelude::*;

verus! {

/// A character of the Unicode `White_Space` property, as `char::is_whitespace` documents it.
pub open spec fn is_white(c: char) -> bool {
    let u = c as u32;
    (9 <= u <= 13) || u == 32 || u == 0x85 || u == 0xa0 || u == 0x1680 || (0x2000 <= u <= 0x200a)
        || u == 0x2028 || u == 0x2029 || u == 0x202f || u == 0x205f || u == 0x3000
}

/// A square bracket.
pub open spec fn is_bracket(c: char) -> bool {
    c == '[' || c == ']'
}

/// A character of class `k`: whitespace for 0, square brackets otherwise.
pub open spec fn in_class(c: char, k: u8) -> bool {
    if k == 0 {
        is_white(c)
    } else {
        is_bracket(c)
    }
}

/// The first position at or after `i` whose character is not of class `k` (the length when
/// there is none).
pub open spec fn lead_end(s: Seq<char>, k: u8, i: int) -> int
    decreases s.len() - i,
{
    if i < 0 || i >= s.len() {
        s.len() as int
    } else if in_class(s[i], k) {
        lead_end(s, k, i + 1)
    } else {
        i
    }
}

/// The end of the run of characters before `j` once the characters of class `k` at its end
/// are dropped.
pub open spec fn trail_start(s: Seq<char>, k: u8, j: int) -> int
    decreases j,
{
    if j <= 0 || j > s.len() {
        0
    } else if in_class(s[j - 1], k) {
        trail_start(s, k, j - 1)
    } else {
        j
    }
}

/// `s` without its leading and trailing characters of class `k`.
pub open spec fn trim_class(s: Seq<char>, k: u8) -> Seq<char> {
    let a = lead_end(s, k, 0);
    if a >= s.len() {
        Seq::empty()
    } else {
        s.subrange(a, trail_start(s, k, s.len() as int))
    }
}

/// `s` without leading and trailing whitespace, as `str::trim` documents it.
pub open spec fn trim(s: Seq<char>) -> Seq<char> {
    trim_class(s, 0)
}

proof fn lemma_lead_end(s: Seq<char>, k: u8, i: int)
    requires
        0 <= i <= s.len(),
    ensures
        i <= lead_end(s, k, i) <= s.len(),
        lead_end(s, k, i) < s.len() ==> !in_class(s[lead_end(s, k, i)], k),
    decreases s.len() - i,
{
    if i < s.len() && in_class(s[i], k) {
        lemma_lead_end(s, k, i + 1);
    }
}

proof fn lemma_trail_start(s: Seq<char>, k: u8, j: int, a: int)
    requires
        0 <= a < j <= s.len(),
        !in_class(s[a], k),
    ensures
        a < trail_start(s, k, j) <= j,
    decreases j,
{
    if in_class(s[j - 1], k) {
        lemma_trail_start(s, k, j - 1, a);
    }
}

/// Whether `c` is whitespace.
pub fn is_whitespace_char(c: char) -> (b: bool)
    ensures
        b == is_white(c),
{
    let u = c as u32;
    (9 <= u && u <= 13) || u == 32 || u == 0x85 || u == 0xa0 || u == 0x1680 || (0x2000 <= u && u
        <= 0x200a) || u == 0x2028 || u == 0x2029 || u == 0x202f || u == 0x205f || u == 0x3000
}

fn char_in_class(c: char, k: u8) -> (b: bool)
    ensures
        b == in_class(c, k),
{
    if k == 0 {
        is_whitespace_char(c)
    } else {
        c == '[' || c == ']'
    }
}

/// A copy of `s[from..to]`.
pub fn copy_chars(s: &[char], from: usize, to: usize) -> (v: Vec<char>)
    requires
        from <= to <= s@.len(),
    ensures
        v@ == s@.subrange(from as int, to as int),
{
    let mut v: Vec<char> = Vec::new();
    let mut i = from;
    while i < to
        invariant
            from <= i <= to,
            to <= s@.len(),
            v@ == s@.subrange(from as int, i as int),
        decreases to - i,
    {
        v.push(s[i]);
        i = i + 1;
        assert(s@.subrange(from as int, i as int) == s@.subrange(from as int, (i - 1) as int).push(s@[i - 1]));
    }
    v
}

/// `s` without its leading and trailing characters of class `k`.
pub fn trim_chars(s: &[char], k: u8) -> (v: Vec<char>)
    ensures
        v@ == trim_class(s@, k),
{
    let mut a: usize = 0;
    while a < s.len() && char_in_class(s[a], k)
        invariant
            0 <= a <= s@.len(),
            lead_end(s@, k, a as int) == lead_end(s@, k, 0),
        decreases s@.len() - a,
    {
        a = a + 1;
    }
    if a >= s.len() {
        return Vec::new();
    }
    proof {
        lemma_trail_start(s@, k, s@.len() as int, a as int);
    }
    let mut b = s.len();
    while b > a + 1 && char_in_class(s[b - 1], k)
        invariant
            a < b <= s@.len(),
            !in_class(s@[a as int], k),
            trail_start(s@, k, b as int) == trail_start(s@, k, s@.len() as int),
        decreases b,
    {
        b = b - 1;
    }
    copy_chars(s, a, b)
}

/// A line with a carriage return that ended it dropped.
pub open spec fn strip_cr(s: Seq<char>) -> Seq<char> {
    if s.len() > 0 && s.last() == '\r' {
        s.drop_last()
    } else {
        s
    }
}

/// The lines of `t` from position `i`, the current line starting at `start`: lines end at
/// each newline, which they do not keep, nor a carriage return before it; an unterminated
/// last line counts only when it is not empty.
pub open spec fn lines_from(t: Seq<char>, i: int, start: int) -> Seq<Seq<char>>
    decreases t.len() - i,
{
    if i < 0 || i >= t.len() {
        if 0 <= start < t.len() {
            seq![t.subrange(start, t.len() as int)]
        } else {
            Seq::empty()
        }
    } else if t[i] == '\n' {
        seq![strip_cr(t.subrange(start, i))] + lines_from(t, i + 1, i + 1)
    } else {
        lines_from(t, i + 1, start)
    }
}

/// The lines of a text, as `str::lines` documents them.
pub open spec fn lines_of(t: Seq<char>) -> Seq<Seq<char>> {
    lines_from(t, 0, 0)
}

/// The contents of a sequence of character vectors.
pub open spec fn char_runs(v: Seq<Vec<char>>) -> Seq<Seq<char>> {
    v.map_values(|e: Vec<char>| e@)
}

/// The lines of `t`.
pub fn split_lines(t: &[char]) -> (lines: Vec<Vec<char>>)
    ensures
        char_runs(lines@) == lines_of(t@),
{
    let mut lines: Vec<Vec<char>> = Vec::new();
    let mut start: usize = 0;
    let mut i: usize = 0;
    while i < t.len()
        invariant
            0 <= start <= i <= t@.len(),
            char_runs(lines@) + lines_from(t@, i as int, start as int) == lines_of(t@),
        decreases t@.len() - i,
    {
        if t[i] == '\n' {
            let mut line = copy_chars(t, start, i);
            if line.len() > 0 && line[line.len() - 1] == '\r' {
                line.pop();
            }
            let ghost before = lines@;
            assert(line@ == strip_cr(t@.subrange(start as int, i as int)));
            lines.push(line);
            assert(char_runs(lines@) == char_runs(before).push(line@));
            assert(char_runs(lines@) + lines_from(t@, i + 1, i + 1) == char_runs(before) + (seq![line@] + lines_from(t@, i + 1, i + 1)));
            start = i + 1;
        }
        i = i + 1;
    }
    if start < t.len() {
        let line = copy_chars(t, start, t.len());
        let ghost before = lines@;
        lines.push(line);
        assert(char_runs(lines@) == char_runs(before).push(line@));
        assert(char_runs(lines@) == char_runs(before) + seq![line@]);
    } else {
        assert(char_runs(lines@) + Seq::<Seq<char>>::empty() == char_runs(lines@));
    }
    lines
}

/// An ASCII upper-case letter made lower case.
pub open spec fn lower_char(c: char) -> char {
    if 'A' <= c <= 'Z' {
        ((c as u8) + 32) as char
    } else {
        c
    }
}

/// `s` with ASCII letters lower-cased, as `str::to_ascii_lowercase` documents it.
pub open spec fn ascii_lower(s: Seq<char>) -> Seq<char> {
    s.map_values(|c: char| lower_char(c))
}

/// `s` with ASCII letters lower-cased.
pub fn lower_chars(s: &[char]) -> (v: Vec<char>)
    ensures
        v@ == ascii_lower(s@),
{
    let mut v: Vec<char> = Vec::new();
    let mut i: usize = 0;
    while i < s.len()
        invariant
            0 <= i <= s@.len(),
            v@ == ascii_lower(s@.take(i as int)),
        decreases s@.len() - i,
    {
        let c = s[i];
        let l = if 'A' <= c && c <= 'Z' {
            ((c as u8) + 32) as char
        } else {
            c
        };
        v.push(l);
        i = i + 1;
        assert(ascii_lower(s@.take(i as int)) == ascii_lower(s@.take((i - 1) as int)).push(l));
    }
    assert(s@.take(s@.len() as int) == s@);
    v
}

/// The position of the first `=` at or after `i`.
pub open spec fn first_eq_from(s: Seq<char>, i: int) -> Option<int>
    decreases s.len() - i,
{
    if i < 0 || i >= s.len() {
        None
    } else if s[i] == '=' {
        Some(i)
    } else {
        first_eq_from(s, i + 1)
    }
}

/// The position of the first `=` at or after `i`.
pub fn find_eq(s: &[char]) -> (r: Option<usize>)
    ensures
        match r {
            Some(k) => first_eq_from(s@, 0) == Some(k as int) && k < s@.len(),
            None => first_eq_from(s@, 0) is None,
        },
{
    let mut i: usize = 0;
    while i < s.len()
        invariant
            0 <= i <= s@.len(),
            first_eq_from(s@, i as int) == first_eq_from(s@, 0),
        decreases s@.len() - i,
    {
        if s[i] == '=' {
            return Some(i);
        }
        i = i + 1;
    }
    None
}

/// `needle` occurs in `hay` at `i`.
pub open spec fn occurs_at(hay: Seq<char>, needle: Seq<char>, i: int) -> bool {
    0 <= i && i + needle.len() <= hay.len() && hay.subrange(i, i + needle.len()) == needle
}

/// `needle` occurs in `hay`.
pub open spec fn contains_chars(hay: Seq<char>, needle: Seq<char>) -> bool {
    exists|i: int| occurs_at(hay, needle, i)
}

/// Whether `a` and `b` hold the same characters.
pub fn same_chars(a: &[char], b: &[char]) -> (r: bool)
    ensures
        r == (a@ == b@),
{
    if a.len() != b.len() {
        return false;
    }
    let mut i: usize = 0;
    while i < a.len()
        invariant
            0 <= i <= a@.len(),
            a@.len() == b@.len(),
            a@.take(i as int) == b@.take(i as int),
        decreases a@.len() - i,
    {
        if a[i] != b[i] {
            assert(a@[i as int] != b@[i as int]);
            return false;
        }
        i = i + 1;
        assert(a@.take(i as int) == a@.take((i - 1) as int).push(a@[i - 1]));
        assert(b@.take(i as int) == b@.take((i - 1) as int).push(b@[i - 1]));
    }
    assert(a@.take(a@.len() as int) == a@);
    assert(b@.take(b@.len() as int) == b@);
    true
}

/// Whether `needle` occurs in `hay`.
pub fn find_chars(hay: &[char], needle: &[char]) -> (r: bool)
    ensures
        r == contains_chars(hay@, needle@),
{
    if needle.len() > hay.len() {
        assert forall|i: int| !occurs_at(hay@, needle@, i) by {}
        return false;
    }
    let limit = hay.len() - needle.len();
    let mut i: usize = 0;
    loop
        invariant
            needle@.len() <= hay@.len(),
            limit == hay@.len() - needle@.len(),
            hay@.len() <= usize::MAX,
            0 <= i <= limit,
            forall|j: int| 0 <= j < i ==> !occurs_at(hay@, needle@, j),
        ensures
            forall|j: int| 0 <= j <= limit ==> !occurs_at(hay@, needle@, j),
        decreases limit - i,
    {
        let part = copy_chars(hay, i, i + needle.len());
        if same_chars(part.as_slice(), needle) {
            assert(occurs_at(hay@, needle@, i as int));
            return true;
        }
        if i == limit {
            break;
        }
        i = i + 1;
    }
    assert forall|j: int| !occurs_at(hay@, needle@, j) by {
        if 0 <= j && j + needle@.len() <= hay@.len() {
            assert(j <= limit);
        }
    }
    false
}

} // verus!
