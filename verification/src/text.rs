//! Character-level text utilities with their mathematical models.
//!
//! Every text in this library is modelled by its sequence of `char`s (`s@`).
//! Positions are positions in that sequence.
use vstd::prelude::*;

verus! {

// ------------------------------------------------------------------
// Building strings
// ------------------------------------------------------------------

/// `String::push`: appends one character.
#[verifier::external_body]
pub(crate) fn push_char(s: &mut String, c: char)
    ensures
        final(s)@ == old(s)@.push(c),
{
    s.push(c)
}

/// The characters of `s`, in order.
pub fn chars_of(s: &str) -> (v: Vec<char>)
    ensures
        v@ == s@,
{
    let mut v: Vec<char> = Vec::new();
    for c in it: s.chars()
        invariant
            v@ == it.seq().take(it.index() as int),
            it.seq() == s@,
    {
        v.push(c);
    }
    v
}

/// Appends the characters of `t` to `s`.
pub fn push_str(s: &mut String, t: &str)
    ensures
        final(s)@ == old(s)@ + t@,
{
    let ghost start = s@;
    for c in it: t.chars()
        invariant
            s@ == start + it.seq().take(it.index() as int),
            it.seq() == t@,
    {
        push_char(s, c);
        assert(it.seq().take(it.index() + 1) == it.seq().take(it.index() as int).push(c));
    }
    assert(t@.take(t@.len() as int) == t@);
}

/// Appends the characters held in `v` to `s`.
pub fn push_chars(s: &mut String, v: &Vec<char>)
    ensures
        final(s)@ == old(s)@ + v@,
{
    let ghost start = s@;
    let mut i: usize = 0;
    while i < v.len()
        invariant
            i <= v.len(),
            s@ == start + v@.take(i as int),
        decreases v.len() - i,
    {
        push_char(s, v[i]);
        assert(v@.take(i + 1) == v@.take(i as int).push(v@[i as int]));
        i = i + 1;
    }
    assert(v@.take(v@.len() as int) == v@);
}

/// A `String` holding the characters of `v`.
pub fn string_from(v: &Vec<char>) -> (s: String)
    ensures
        s@ == v@,
{
    let mut s = String::new();
    push_chars(&mut s, v);
    s
}

/// A `String` holding the characters of `v[lo..hi]`.
pub fn string_from_range(v: &Vec<char>, lo: usize, hi: usize) -> (s: String)
    requires
        lo <= hi <= v.len(),
    ensures
        s@ == v@.subrange(lo as int, hi as int),
{
    let mut s = String::new();
    let mut i = lo;
    while i < hi
        invariant
            lo <= i <= hi <= v.len(),
            s@ == v@.subrange(lo as int, i as int),
        decreases hi - i,
    {
        push_char(&mut s, v[i]);
        assert(v@.subrange(lo as int, i + 1) == v@.subrange(lo as int, i as int).push(v@[i as int]));
        i = i + 1;
    }
    s
}

/// An owned copy of `s`.
pub fn owned(s: &str) -> (r: String)
    ensures
        r@ == s@,
{
    let mut r = String::new();
    push_str(&mut r, s);
    r
}

// ------------------------------------------------------------------
// Equality and searching
// ------------------------------------------------------------------

/// Whether `a` and `b` hold the same characters.
pub fn chars_eq(a: &Vec<char>, b: &Vec<char>) -> (r: bool)
    ensures
        r == (a@ == b@),
{
    if a.len() != b.len() {
        return false;
    }
    let mut i: usize = 0;
    while i < a.len()
        invariant
            a.len() == b.len(),
            i <= a.len(),
            forall|j: int| 0 <= j < i ==> a@[j] == b@[j],
        decreases a.len() - i,
    {
        if a[i] != b[i] {
            return false;
        }
        i = i + 1;
    }
    assert(a@ =~= b@);
    true
}

/// Whether `a` and `b` are the same text.
pub fn str_eq(a: &str, b: &str) -> (r: bool)
    ensures
        r == (a@ == b@),
{
    let va = chars_of(a);
    let vb = chars_of(b);
    chars_eq(&va, &vb)
}

/// Whether the text `v` equals `b`.
pub fn chars_eq_str(v: &Vec<char>, b: &str) -> (r: bool)
    ensures
        r == (v@ == b@),
{
    let vb = chars_of(b);
    chars_eq(v, &vb)
}

/// `p` occurs in `s` starting at position `i`.
pub open spec fn occurs_at(s: Seq<char>, p: Seq<char>, i: int) -> bool {
    0 <= i && i + p.len() <= s.len() && s.subrange(i, i + p.len()) == p
}

/// `p` occurs somewhere in `s`.
pub open spec fn has_sub(s: Seq<char>, p: Seq<char>) -> bool {
    exists|i: int| occurs_at(s, p, i)
}

/// `i` is the first position at or after `start` where `p` occurs in `s`.
pub open spec fn first_occurrence_from(s: Seq<char>, p: Seq<char>, start: int, i: int) -> bool {
    &&& start <= i
    &&& occurs_at(s, p, i)
    &&& forall|j: int| start <= j < i ==> !occurs_at(s, p, j)
}

/// `s` begins with `p`.
pub open spec fn starts_with(s: Seq<char>, p: Seq<char>) -> bool {
    p.len() <= s.len() && s.take(p.len() as int) == p
}

/// `s` ends with `p`.
pub open spec fn ends_with(s: Seq<char>, p: Seq<char>) -> bool {
    p.len() <= s.len() && s.skip(s.len() - p.len()) == p
}

/// Whether `p` occurs in `s` at position `i`.
pub fn matches_at(s: &Vec<char>, p: &Vec<char>, i: usize) -> (r: bool)
    ensures
        r == occurs_at(s@, p@, i as int),
{
    if i > s.len() || p.len() > s.len() - i {
        return false;
    }
    let mut k: usize = 0;
    while k < p.len()
        invariant
            i + p.len() <= s.len(),
            k <= p.len(),
            forall|j: int| 0 <= j < k ==> s@[i + j] == p@[j],
        decreases p.len() - k,
    {
        if s[i + k] != p[k] {
            assert(s@.subrange(i as int, i + p.len())[k as int] != p@[k as int]);
            return false;
        }
        k = k + 1;
    }
    assert(s@.subrange(i as int, i + p.len()) =~= p@);
    true
}

/// The first position at or after `start` where `p` occurs in `s`.
pub fn find_from(s: &Vec<char>, p: &Vec<char>, start: usize) -> (r: Option<usize>)
    ensures
        match r {
            Some(i) => first_occurrence_from(s@, p@, start as int, i as int),
            None => forall|j: int| start <= j ==> !occurs_at(s@, p@, j),
        },
{
    if start > s.len() {
        return None;
    }
    let mut i = start;
    while i < s.len()
        invariant
            start <= i <= s.len(),
            forall|j: int| start <= j < i ==> !occurs_at(s@, p@, j),
        decreases s.len() - i,
    {
        if matches_at(s, p, i) {
            return Some(i);
        }
        i = i + 1;
    }
    if matches_at(s, p, i) {
        return Some(i);
    }
    None
}

/// The first position where `p` occurs in `s`, if any (`str::find`).
pub open spec fn find_sub(s: Seq<char>, p: Seq<char>) -> Option<int> {
    if has_sub(s, p) {
        Some(choose|i: int| first_occurrence_from(s, p, 0, i))
    } else {
        None
    }
}

proof fn lemma_first_unique(s: Seq<char>, p: Seq<char>, start: int, i: int, j: int)
    requires
        first_occurrence_from(s, p, start, i),
        first_occurrence_from(s, p, start, j),
    ensures
        i == j,
{
    if i < j {
        assert(!occurs_at(s, p, i));
    }
    if j < i {
        assert(!occurs_at(s, p, j));
    }
}

/// The first position where `p` occurs in `s`.
pub fn find_chars(s: &Vec<char>, p: &Vec<char>) -> (r: Option<usize>)
    ensures
        match r {
            Some(i) => find_sub(s@, p@) == Some(i as int) && occurs_at(s@, p@, i as int),
            None => find_sub(s@, p@) is None,
        },
{
    let r = find_from(s, p, 0);
    proof {
        match r {
            Some(i) => {
                assert(has_sub(s@, p@));
                let j = choose|j: int| first_occurrence_from(s@, p@, 0, j);
                lemma_first_unique(s@, p@, 0, i as int, j);
            },
            None => {
                assert forall|j: int| !occurs_at(s@, p@, j) by {
                    if j >= 0 {
                    }
                }
            },
        }
    }
    r
}

/// A found occurrence lies inside the text.
pub proof fn lemma_find_within(s: Seq<char>, p: Seq<char>, i: int)
    requires
        find_sub(s, p) == Some(i),
    ensures
        occurs_at(s, p, i),
{
    assert(has_sub(s, p));
    let k = choose|k: int| occurs_at(s, p, k);
    lemma_first_exists(s, p, k);
}

/// Where `p` occurs, it has a first occurrence.
pub proof fn lemma_first_exists(s: Seq<char>, p: Seq<char>, i: int)
    requires
        occurs_at(s, p, i),
    ensures
        exists|k: int| first_occurrence_from(s, p, 0, k),
    decreases i,
{
    if exists|j: int| 0 <= j < i && occurs_at(s, p, j) {
        let j = choose|j: int| 0 <= j < i && occurs_at(s, p, j);
        lemma_first_exists(s, p, j);
    } else {
        assert(first_occurrence_from(s, p, 0, i));
    }
}

/// Whether `p` occurs in `s`.
pub fn contains_chars(s: &Vec<char>, p: &Vec<char>) -> (r: bool)
    ensures
        r == has_sub(s@, p@),
{
    match find_from(s, p, 0) {
        Some(i) => true,
        None => {
            assert(!has_sub(s@, p@)) by {
                assert forall|j: int| !occurs_at(s@, p@, j) by {
                    if j >= 0 {
                    }
                }
            }
            false
        },
    }
}

/// Whether `p` occurs in `s`.
pub fn contains_str(s: &str, p: &str) -> (r: bool)
    ensures
        r == has_sub(s@, p@),
{
    let vs = chars_of(s);
    let vp = chars_of(p);
    contains_chars(&vs, &vp)
}

/// Whether `s` begins with `p`.
pub fn starts_with_chars(s: &Vec<char>, p: &Vec<char>) -> (r: bool)
    ensures
        r == starts_with(s@, p@),
{
    let r = matches_at(s, p, 0);
    assert(s@.subrange(0, p@.len() as int) == s@.take(p@.len() as int));
    r
}

/// Whether `s` ends with `p`.
pub fn ends_with_chars(s: &Vec<char>, p: &Vec<char>) -> (r: bool)
    ensures
        r == ends_with(s@, p@),
{
    if p.len() > s.len() {
        return false;
    }
    let r = matches_at(s, p, s.len() - p.len());
    assert(s@.subrange(s@.len() - p@.len(), s@.len() as int) == s@.skip(s@.len() - p@.len()));
    r
}


// ------------------------------------------------------------------
// Single characters
// ------------------------------------------------------------------

/// Position of the first `c` in `s`, or -1 when `s` holds none.
pub open spec fn char_index(s: Seq<char>, c: char) -> int
    decreases s.len(),
{
    if s.len() == 0 {
        -1
    } else if s[0] == c {
        0
    } else {
        let r = char_index(s.drop_first(), c);
        if r < 0 {
            -1
        } else {
            r + 1
        }
    }
}

/// `char_index` is the position of the first occurrence.
pub proof fn lemma_char_index(s: Seq<char>, c: char)
    ensures
        -1 <= char_index(s, c) < s.len(),
        char_index(s, c) >= 0 ==> s[char_index(s, c)] == c,
        forall|j: int| 0 <= j < s.len() && (char_index(s, c) < 0 || j < char_index(s, c)) ==> s[j] != c,
    decreases s.len(),
{
    if s.len() > 0 && s[0] != c {
        lemma_char_index(s.drop_first(), c);
        assert forall|j: int| 0 <= j < s.len() && (char_index(s, c) < 0 || j < char_index(s, c)) implies s[j] != c by {
            if j > 0 {
                assert(s[j] == s.drop_first()[j - 1]);
            }
        }
    }
}

/// A first occurrence determines `char_index`.
pub proof fn lemma_char_index_is(s: Seq<char>, c: char, k: int)
    requires
        -1 <= k < s.len(),
        k >= 0 ==> s[k] == c,
        forall|j: int| 0 <= j < s.len() && (k < 0 || j < k) ==> s[j] != c,
    ensures
        char_index(s, c) == k,
{
    lemma_char_index(s, c);
    let r = char_index(s, c);
    if r >= 0 && k >= 0 {
        if r < k {
            assert(s[r] != c);
        }
        if k < r {
            assert(s[k] != c);
        }
    } else if r >= 0 {
        assert(s[r] != c);
    } else if k >= 0 {
        assert(s[k] != c);
    }
}

/// First position at or after `start` that holds `c`.
pub fn find_char_from(v: &Vec<char>, c: char, start: usize) -> (r: Option<usize>)
    requires
        start <= v.len(),
    ensures
        match r {
            Some(k) => start <= k < v.len() && v@[k as int] == c && forall|j: int|
                start <= j < k ==> v@[j] != c,
            None => forall|j: int| start <= j < v.len() ==> v@[j] != c,
        },
        char_index(v@.skip(start as int), c) == match r {
            Some(k) => k - start,
            None => -1,
        },
{
    let mut i = start;
    while i < v.len()
        invariant
            start <= i <= v.len(),
            forall|j: int| start <= j < i ==> v@[j] != c,
        decreases v.len() - i,
    {
        if v[i] == c {
            proof {
                lemma_char_index_is(v@.skip(start as int), c, i - start);
            }
            return Some(i);
        }
        i = i + 1;
    }
    proof {
        lemma_char_index_is(v@.skip(start as int), c, -1);
    }
    None
}

// ------------------------------------------------------------------
// Lines
// ------------------------------------------------------------------

/// A line without the `\r` of a `\r\n` ending.
pub open spec fn strip_cr(l: Seq<char>) -> Seq<char> {
    if l.len() > 0 && l.last() == '\r' {
        l.drop_last()
    } else {
        l
    }
}

/// The lines of `s`, as `str::lines` yields them: split at `\n`, with the `\r`
/// of each `\r\n` ending removed; a final empty line is not yielded.
pub open spec fn line_split(s: Seq<char>) -> Seq<Seq<char>>
    decreases s.len(),
{
    if s.len() == 0 {
        seq![]
    } else {
        let k = char_index(s, '\n');
        if k < 0 {
            seq![s]
        } else {
            proof {
                lemma_char_index(s, '\n');
            }
            seq![strip_cr(s.take(k))] + line_split(s.skip(k + 1))
        }
    }
}

/// The characters `v[lo..hi]`, without a final `\r`.
fn line_chars(v: &Vec<char>, lo: usize, hi: usize, drop_cr: bool) -> (r: Vec<char>)
    requires
        lo <= hi <= v.len(),
    ensures
        r@ == if drop_cr {
            strip_cr(v@.subrange(lo as int, hi as int))
        } else {
            v@.subrange(lo as int, hi as int)
        },
{
    let mut end = hi;
    if drop_cr && hi > lo && v[hi - 1] == '\r' {
        end = hi - 1;
    }
    let mut r: Vec<char> = Vec::new();
    let mut i = lo;
    while i < end
        invariant
            lo <= i <= end <= hi <= v.len(),
            r@ == v@.subrange(lo as int, i as int),
        decreases end - i,
    {
        r.push(v[i]);
        assert(v@.subrange(lo as int, i + 1) == v@.subrange(lo as int, i as int).push(v@[i as int]));
        i = i + 1;
    }
    assert(drop_cr ==> r@ == strip_cr(v@.subrange(lo as int, hi as int)));
    r
}

/// The texts held in a vector of character vectors.
pub open spec fn texts(r: Seq<Vec<char>>) -> Seq<Seq<char>> {
    Seq::new(r.len(), |i: int| r[i]@)
}

/// The lines of `v` (see `line_split`).
pub fn lines_of(v: &Vec<char>) -> (r: Vec<Vec<char>>)
    ensures
        texts(r@) == line_split(v@),
{
    let mut r: Vec<Vec<char>> = Vec::new();
    let mut start: usize = 0;
    assert(v@.skip(0) == v@);
    while start < v.len()
        invariant
            start <= v.len(),
            line_split(v@) == texts(r@) + line_split(v@.skip(start as int)),
        decreases v.len() - start,
    {
        let ghost rest = v@.skip(start as int);
        let ghost before = texts(r@);
        match find_char_from(v, '\n', start) {
            Some(k) => {
                let line = line_chars(v, start, k, true);
                r.push(line);
                proof {
                    assert(rest.take(k - start) == v@.subrange(start as int, k as int));
                    assert(rest.skip(k - start + 1) == v@.skip(k + 1));
                    assert(texts(r@) =~= before.push(line@));
                    assert(line_split(rest) == seq![line@] + line_split(v@.skip(k + 1)));
                    assert(before.push(line@) + line_split(v@.skip(k + 1)) =~= before + (seq![line@] + line_split(v@.skip(k + 1))));
                }
                start = k + 1;
            },
            None => {
                let line = line_chars(v, start, v.len(), false);
                r.push(line);
                proof {
                    assert(rest == v@.subrange(start as int, v@.len() as int));
                    assert(texts(r@) =~= before.push(line@));
                    assert(line_split(rest) == seq![line@]);
                    assert(v@.skip(v@.len() as int) =~= Seq::<char>::empty());
                    assert(before.push(line@) + line_split(v@.skip(v@.len() as int)) =~= before + seq![line@]);
                }
                start = v.len();
            },
        }
    }
    assert(v@.skip(v@.len() as int) =~= Seq::<char>::empty());
    assert(texts(r@) + line_split(Seq::<char>::empty()) =~= texts(r@));
    r
}


// ------------------------------------------------------------------
// Whitespace
// ------------------------------------------------------------------

/// `char::is_whitespace`: the characters with the Unicode `White_Space` property.
pub open spec fn is_ws(c: char) -> bool {
    ||| '\u{9}' <= c <= '\u{d}'
    ||| c == ' '
    ||| c == '\u{85}'
    ||| c == '\u{a0}'
    ||| c == '\u{1680}'
    ||| '\u{2000}' <= c <= '\u{200a}'
    ||| c == '\u{2028}'
    ||| c == '\u{2029}'
    ||| c == '\u{202f}'
    ||| c == '\u{205f}'
    ||| c == '\u{3000}'
}

/// Whether `c` is whitespace (see `is_ws`).
pub fn is_whitespace(c: char) -> (r: bool)
    ensures
        r == is_ws(c),
{
    ('\u{9}' <= c && c <= '\u{d}') || c == ' ' || c == '\u{85}' || c == '\u{a0}' || c == '\u{1680}'
        || ('\u{2000}' <= c && c <= '\u{200a}') || c == '\u{2028}' || c == '\u{2029}' || c
        == '\u{202f}' || c == '\u{205f}' || c == '\u{3000}'
}

/// `s` without its leading whitespace.
pub open spec fn skip_ws(s: Seq<char>) -> Seq<char>
    decreases s.len(),
{
    if s.len() > 0 && is_ws(s[0]) {
        skip_ws(s.drop_first())
    } else {
        s
    }
}

/// `s` without its trailing whitespace.
pub open spec fn trim_end(s: Seq<char>) -> Seq<char>
    decreases s.len(),
{
    if s.len() > 0 && is_ws(s.last()) {
        trim_end(s.drop_last())
    } else {
        s
    }
}

/// `str::trim`: `s` without leading and trailing whitespace.
pub open spec fn trim(s: Seq<char>) -> Seq<char> {
    trim_end(skip_ws(s))
}

/// Length of the leading run of non-whitespace characters of `t`.
pub open spec fn word_end(t: Seq<char>) -> int
    decreases t.len(),
{
    if t.len() == 0 || is_ws(t[0]) {
        0
    } else {
        1 + word_end(t.drop_first())
    }
}

pub proof fn lemma_skip_ws_is(s: Seq<char>, k: int)
    requires
        0 <= k <= s.len(),
        forall|j: int| 0 <= j < k ==> is_ws(s[j]),
        k < s.len() ==> !is_ws(s[k]),
    ensures
        skip_ws(s) == s.skip(k),
    decreases k,
{
    if k == 0 {
        assert(s.skip(0) == s);
    } else {
        assert(s.drop_first().skip(k - 1) == s.skip(k));
        lemma_skip_ws_is(s.drop_first(), k - 1);
    }
}

pub proof fn lemma_word_end_is(t: Seq<char>, k: int)
    requires
        0 <= k <= t.len(),
        forall|j: int| 0 <= j < k ==> !is_ws(t[j]),
        k < t.len() ==> is_ws(t[k]),
    ensures
        word_end(t) == k,
    decreases k,
{
    if k > 0 {
        lemma_word_end_is(t.drop_first(), k - 1);
    }
}

pub proof fn lemma_trim_end_is(s: Seq<char>, k: int)
    requires
        0 <= k <= s.len(),
        forall|j: int| k <= j < s.len() ==> is_ws(s[j]),
        k > 0 ==> !is_ws(s[k - 1]),
    ensures
        trim_end(s) == s.take(k),
    decreases s.len(),
{
    if s.len() == k {
        assert(s.take(k) == s);
    } else {
        assert(s.drop_last().take(k) == s.take(k));
        lemma_trim_end_is(s.drop_last(), k);
    }
}

pub proof fn lemma_skip_ws_len(s: Seq<char>)
    ensures
        skip_ws(s).len() <= s.len(),
        skip_ws(s).len() > 0 ==> !is_ws(skip_ws(s)[0]),
    decreases s.len(),
{
    if s.len() > 0 && is_ws(s[0]) {
        lemma_skip_ws_len(s.drop_first());
    }
}

pub proof fn lemma_word_end_len(t: Seq<char>)
    ensures
        0 <= word_end(t) <= t.len(),
        t.len() > 0 && !is_ws(t[0]) ==> word_end(t) >= 1,
    decreases t.len(),
{
    if t.len() > 0 && !is_ws(t[0]) {
        lemma_word_end_len(t.drop_first());
    }
}

/// `str::split_whitespace`: the maximal runs of non-whitespace characters.
pub open spec fn words(s: Seq<char>) -> Seq<Seq<char>>
    decreases s.len(),
{
    let t = skip_ws(s);
    if t.len() == 0 {
        seq![]
    } else {
        let k = word_end(t);
        proof {
            lemma_skip_ws_len(s);
            lemma_word_end_len(t);
        }
        seq![t.take(k)] + words(t.skip(k))
    }
}

/// First position at or after `start` whose character is (or, with `ws == false`, is not)
/// whitespace; `v.len()` when there is none.
fn scan_ws(v: &Vec<char>, start: usize, ws: bool) -> (r: usize)
    requires
        start <= v.len(),
    ensures
        start <= r <= v.len(),
        forall|j: int| start <= j < r ==> is_ws(v@[j]) != ws,
        r < v.len() ==> is_ws(v@[r as int]) == ws,
{
    let mut i = start;
    while i < v.len() && is_whitespace(v[i]) != ws
        invariant
            start <= i <= v.len(),
            forall|j: int| start <= j < i ==> is_ws(v@[j]) != ws,
        decreases v.len() - i,
    {
        i = i + 1;
    }
    i
}

/// The whitespace-separated words of `v` (see `words`).
pub fn split_ws(v: &Vec<char>) -> (r: Vec<Vec<char>>)
    ensures
        texts(r@) == words(v@),
{
    let mut r: Vec<Vec<char>> = Vec::new();
    let mut pos: usize = 0;
    assert(v@.skip(0) == v@);
    loop
        invariant
            pos <= v.len(),
            words(v@) == texts(r@) + words(v@.skip(pos as int)),
        decreases v.len() - pos,
    {
        let ghost before = texts(r@);
        let a = scan_ws(v, pos, false);
        proof {
            lemma_skip_ws_is(v@.skip(pos as int), a - pos);
            assert(v@.skip(pos as int).skip(a - pos) == v@.skip(a as int));
        }
        if a == v.len() {
            assert(words(v@.skip(pos as int)) =~= Seq::<Seq<char>>::empty());
            assert(texts(r@) + Seq::<Seq<char>>::empty() =~= texts(r@));
            return r;
        }
        let b = scan_ws(v, a, true);
        proof {
            lemma_word_end_is(v@.skip(a as int), b - a);
            assert(v@.skip(a as int).take(b - a) == v@.subrange(a as int, b as int));
            assert(v@.skip(a as int).skip(b - a) == v@.skip(b as int));
        }
        let w = line_chars(v, a, b, false);
        r.push(w);
        proof {
            assert(texts(r@) =~= before.push(w@));
            assert(words(v@.skip(pos as int)) == seq![w@] + words(v@.skip(b as int)));
            assert(before.push(w@) + words(v@.skip(b as int)) =~= before + (seq![w@] + words(v@.skip(b as int))));
        }
        pos = b;
    }
}

/// `v` without leading and trailing whitespace (see `trim`).
pub fn trim_chars(v: &Vec<char>) -> (r: Vec<char>)
    ensures
        r@ == trim(v@),
{
    let a = scan_ws(v, 0, false);
    proof {
        lemma_skip_ws_is(v@, a as int);
    }
    let mut b = v.len();
    while b > a && is_whitespace(v[b - 1])
        invariant
            a <= b <= v.len(),
            forall|j: int| b <= j < v.len() ==> is_ws(v@[j]),
        decreases b,
    {
        b = b - 1;
    }
    proof {
        let t = v@.skip(a as int);
        if b > a {
            assert(!is_ws(t[b - a - 1]));
        }
        lemma_trim_end_is(t, b - a);
        assert(t.take(b - a) == v@.subrange(a as int, b as int));
    }
    line_chars(v, a, b, false)
}

// ------------------------------------------------------------------
// Case
// ------------------------------------------------------------------

/// `char::to_ascii_lowercase`.
pub open spec fn ascii_lower(c: char) -> char {
    if 'A' <= c <= 'Z' {
        ((c as u32) + 32) as char
    } else {
        c
    }
}

/// `str::to_ascii_lowercase`.
pub open spec fn ascii_lower_text(s: Seq<char>) -> Seq<char> {
    s.map_values(|c: char| ascii_lower(c))
}

/// The ASCII lower-case form of `c`.
pub fn lower_ascii_char(c: char) -> (r: char)
    ensures
        r == ascii_lower(c),
{
    if 'A' <= c && c <= 'Z' {
        let b = c as u8;
        ((b + 32) as char)
    } else {
        c
    }
}

/// The ASCII lower-case form of `v`.
pub fn lower_ascii(v: &Vec<char>) -> (r: Vec<char>)
    ensures
        r@ == ascii_lower_text(v@),
{
    let mut r: Vec<char> = Vec::new();
    let mut i: usize = 0;
    while i < v.len()
        invariant
            i <= v.len(),
            r@ == ascii_lower_text(v@.take(i as int)),
        decreases v.len() - i,
    {
        r.push(lower_ascii_char(v[i]));
        assert(ascii_lower_text(v@.take(i + 1)) =~= ascii_lower_text(v@.take(i as int)).push(ascii_lower(v@[i as int])));
        i = i + 1;
    }
    assert(v@.take(v@.len() as int) == v@);
    r
}

/// What `str::to_lowercase` returns: the lower-case mapping of Unicode,
/// applied character by character (some characters map to several).
pub uninterp spec fn unicode_lower(s: Seq<char>) -> Seq<char>;

/// `str::to_lowercase`. Its result is named `unicode_lower`; of an ASCII text it is the
/// ASCII lower-case form, for the Unicode lower-case mapping of an ASCII character is
/// its ASCII one.
#[verifier::external_body]
pub(crate) fn to_lowercase(s: &str) -> (r: String)
    ensures
        r@ == unicode_lower(s@),
        (forall|i: int| 0 <= i < s@.len() ==> (#[trigger] s@[i] as u32) < 128) ==> r@ == ascii_lower_text(s@),
{
    s.to_lowercase()
}


// ------------------------------------------------------------------
// Numbers
// ------------------------------------------------------------------

/// The digit character of value `d` (lower-case for values above 9).
pub open spec fn digit_char(d: nat) -> char {
    if d == 0 {
        '0'
    } else if d == 1 {
        '1'
    } else if d == 2 {
        '2'
    } else if d == 3 {
        '3'
    } else if d == 4 {
        '4'
    } else if d == 5 {
        '5'
    } else if d == 6 {
        '6'
    } else if d == 7 {
        '7'
    } else if d == 8 {
        '8'
    } else if d == 9 {
        '9'
    } else if d == 10 {
        'a'
    } else if d == 11 {
        'b'
    } else if d == 12 {
        'c'
    } else if d == 13 {
        'd'
    } else if d == 14 {
        'e'
    } else if d == 15 {
        'f'
    } else {
        '?'
    }
}

/// The digit character of value `d`.
pub fn digit_of(d: u64) -> (c: char)
    requires
        d < 16,
    ensures
        c == digit_char(d as nat),
{
    if d == 0 {
        '0'
    } else if d == 1 {
        '1'
    } else if d == 2 {
        '2'
    } else if d == 3 {
        '3'
    } else if d == 4 {
        '4'
    } else if d == 5 {
        '5'
    } else if d == 6 {
        '6'
    } else if d == 7 {
        '7'
    } else if d == 8 {
        '8'
    } else if d == 9 {
        '9'
    } else if d == 10 {
        'a'
    } else if d == 11 {
        'b'
    } else if d == 12 {
        'c'
    } else if d == 13 {
        'd'
    } else if d == 14 {
        'e'
    } else if d == 15 {
        'f'
    } else {
        '?'
    }
}

/// The digits of `n` in base `b`, most significant first, without leading zeros.
pub open spec fn radix_text(n: nat, b: nat) -> Seq<char>
    decreases n,
{
    if b < 2 || n < b {
        seq![digit_char(n)]
    } else {
        proof {
            assert(n / b < n) by (nonlinear_arith)
                requires
                    b >= 2,
                    n >= b,
            ;
        }
        radix_text(n / b, b).push(digit_char(n % b))
    }
}

/// `format!("{}", n)`.
pub open spec fn decimal(n: nat) -> Seq<char> {
    radix_text(n, 10)
}

/// `format!("{:x}", n)`.
pub open spec fn hex(n: nat) -> Seq<char> {
    radix_text(n, 16)
}

/// `s` padded on the left with `0` to at least `w` characters (`{:0w}`).
pub open spec fn zero_pad(s: Seq<char>, w: nat) -> Seq<char> {
    if s.len() >= w {
        s
    } else {
        Seq::new((w - s.len()) as nat, |i: int| '0') + s
    }
}

/// The decimal digits of `n` are digits, at least one, and have the value `n`.
pub proof fn lemma_decimal_digits(n: nat)
    ensures
        decimal(n).len() > 0,
        forall|i: int| 0 <= i < decimal(n).len() ==> is_digit(#[trigger] decimal(n)[i]),
        digits_value(decimal(n)) == n,
    decreases n,
{
    if n < 10 {
        assert(decimal(n) == seq![digit_char(n)]);
        assert(seq![digit_char(n)].drop_last() =~= Seq::<char>::empty());
        assert(digit_value(digit_char(n)) == n);
        assert(digits_value(seq![digit_char(n)]) == digits_value(Seq::<char>::empty()) * 10 + digit_value(digit_char(n)));
    } else {
        assert(n / 10 < n);
        lemma_decimal_digits(n / 10);
        let d = decimal(n / 10);
        assert(decimal(n) == d.push(digit_char(n % 10)));
        assert(d.push(digit_char(n % 10)).drop_last() =~= d);
        assert(digit_value(digit_char(n % 10)) == n % 10);
        assert(n == (n / 10) * 10 + n % 10);
        assert(digits_value(d.push(digit_char(n % 10))) == digits_value(d) * 10 + digit_value(digit_char(n % 10)));
        assert forall|i: int| 0 <= i < decimal(n).len() implies is_digit(#[trigger] decimal(n)[i]) by {
            if i < d.len() {
                assert(decimal(n)[i] == d[i]);
            }
        }
    }
}

/// `str::parse` reads back the decimal text of a number that fits.
pub proof fn lemma_decimal_parses(n: nat, max: nat)
    requires
        n <= max,
    ensures
        parse_unsigned(decimal(n), max) == Some(n),
{
    lemma_decimal_digits(n);
    assert(is_digit(decimal(n)[0]));
    assert(unsigned_digits(decimal(n)) == decimal(n));
}

/// Appends the base-`b` digits of `n` to `s`.
pub fn push_radix(s: &mut String, n: u64, b: u64)
    requires
        2 <= b <= 16,
    ensures
        final(s)@ == old(s)@ + radix_text(n as nat, b as nat),
    decreases n,
{
    if n >= b {
        assert(n / b < n) by (nonlinear_arith)
            requires
                b >= 2,
                n >= b,
        ;
        push_radix(s, n / b, b);
        push_char(s, digit_of(n % b));
        assert(radix_text(n as nat, b as nat) == radix_text((n / b) as nat, b as nat).push(
            digit_char((n % b) as nat),
        ));
        assert(s@ =~= old(s)@ + radix_text(n as nat, b as nat));
    } else {
        assert(n % b == n) by (nonlinear_arith)
            requires
                n < b,
        ;
        push_char(s, digit_of(n % b));
        assert(s@ =~= old(s)@ + radix_text(n as nat, b as nat));
    }
}

/// Appends `n`, zero-padded to `w` characters, in base `b`.
pub fn push_radix_padded(s: &mut String, n: u64, b: u64, w: usize)
    requires
        2 <= b <= 16,
    ensures
        final(s)@ == old(s)@ + zero_pad(radix_text(n as nat, b as nat), w as nat),
{
    let mut digits = String::new();
    push_radix(&mut digits, n, b);
    let dv = chars_of(digits.as_str());
    let ghost start = s@;
    if dv.len() < w {
        let mut k: usize = 0;
        let pad = w - dv.len();
        while k < pad
            invariant
                k <= pad,
                s@ == start + Seq::new(k as nat, |i: int| '0'),
            decreases pad - k,
        {
            push_char(s, '0');
            assert(Seq::new((k + 1) as nat, |i: int| '0') =~= Seq::new(k as nat, |i: int| '0').push('0'));
            k = k + 1;
        }
    }
    let ghost mid = s@;
    push_chars(s, &dv);
    assert(s@ =~= start + zero_pad(radix_text(n as nat, b as nat), w as nat));
}

/// `c` is an ASCII decimal digit.
pub open spec fn is_digit(c: char) -> bool {
    '0' <= c <= '9'
}

/// Value of the decimal digit `c`.
pub open spec fn digit_value(c: char) -> nat {
    (c as int - '0' as int) as nat
}

/// Value of a sequence of decimal digits.
pub open spec fn digits_value(d: Seq<char>) -> nat
    decreases d.len(),
{
    if d.len() == 0 {
        0
    } else {
        digits_value(d.drop_last()) * 10 + digit_value(d.last())
    }
}

/// The digits that `str::parse` reads for an unsigned integer: an optional leading `+`
/// is dropped.
pub open spec fn unsigned_digits(s: Seq<char>) -> Seq<char> {
    if s.len() > 0 && s[0] == '+' {
        s.drop_first()
    } else {
        s
    }
}

/// `str::parse` for an unsigned integer type whose largest value is `max`: an optional
/// `+`, then one or more decimal digits, of a value not above `max`.
pub open spec fn parse_unsigned(s: Seq<char>, max: nat) -> Option<nat> {
    let d = unsigned_digits(s);
    if d.len() > 0 && (forall|i: int| 0 <= i < d.len() ==> is_digit(d[i])) && digits_value(d)
        <= max {
        Some(digits_value(d))
    } else {
        None
    }
}

proof fn lemma_digits_prefix_monotone(d: Seq<char>, i: int, j: int)
    requires
        0 <= i <= j <= d.len(),
    ensures
        digits_value(d.take(i)) <= digits_value(d.take(j)),
    decreases j - i,
{
    if i < j {
        lemma_digits_prefix_monotone(d, i, j - 1);
        assert(d.take(j).drop_last() == d.take(j - 1));
    }
}

/// Parses `v` as an unsigned integer of at most `max` (see `parse_unsigned`).
pub fn parse_unsigned_chars(v: &Vec<char>, max: u64) -> (r: Option<u64>)
    ensures
        match r {
            Some(n) => parse_unsigned(v@, max as nat) == Some(n as nat),
            None => parse_unsigned(v@, max as nat) is None,
        },
{
    let start: usize = if v.len() > 0 && v[0] == '+' {
        1
    } else {
        0
    };
    let ghost d = unsigned_digits(v@);
    assert(d == v@.skip(start as int));
    if start >= v.len() {
        return None;
    }
    let mut acc: u64 = 0;
    let mut i = start;
    while i < v.len()
        invariant
            start <= i <= v.len(),
            d == v@.skip(start as int),
            d == unsigned_digits(v@),
            acc as nat == digits_value(d.take(i - start)),
            acc <= max,
            forall|j: int| 0 <= j < i - start ==> is_digit(d[j]),
        decreases v.len() - i,
    {
        let c = v[i];
        assert(d[i - start] == c);
        if !('0' <= c && c <= '9') {
            assert(!is_digit(d[i - start]));

            return None;
        }
        let dv = (c as u32 - '0' as u32) as u64;
        assert(d.take(i - start + 1).drop_last() == d.take(i - start));
        let ghost next = digits_value(d.take(i - start + 1));
        assert(next == acc * 10 + digit_value(c));
        match acc.checked_mul(10) {
            None => {
                proof {
                    lemma_digits_prefix_monotone(d, i - start + 1, d.len() as int);
                    assert(d.take(d.len() as int) == d);
                }
                return None;
            },
            Some(m) => match m.checked_add(dv) {
                None => {
                    proof {
                        lemma_digits_prefix_monotone(d, i - start + 1, d.len() as int);
                        assert(d.take(d.len() as int) == d);
                    }
                    return None;
                },
                Some(n) => {
                    if n > max {
                        proof {
                            lemma_digits_prefix_monotone(d, i - start + 1, d.len() as int);
                            assert(d.take(d.len() as int) == d);
                        }
                        return None;
                    }
                    acc = n;
                },
            },
        }
        i = i + 1;
    }
    assert(d.take(d.len() as int) == d);
    Some(acc)
}


// ------------------------------------------------------------------
// Front matter
// ------------------------------------------------------------------

/// The front matter of a document and the body after it: the document opens with a
/// `---` line, and the front matter runs to the next `\n---\n`.
pub open spec fn front_matter(s: Seq<char>) -> Option<(Seq<char>, Seq<char>)> {
    if starts_with(s, "---\n"@) {
        let after = s.skip("---\n"@.len() as int);
        match find_sub(after, "\n---\n"@) {
            Some(e) => Some((after.take(e), after.skip(e + "\n---\n"@.len()))),
            None => None,
        }
    } else {
        None
    }
}

/// The characters `v[lo..]`.
pub fn tail_chars(v: &Vec<char>, lo: usize) -> (r: Vec<char>)
    requires
        lo <= v.len(),
    ensures
        r@ == v@.skip(lo as int),
{
    let r = slice_chars(v, lo, v.len());
    assert(v@.subrange(lo as int, v@.len() as int) == v@.skip(lo as int));
    r
}

/// The characters `v[lo..hi]`.
pub fn slice_chars(v: &Vec<char>, lo: usize, hi: usize) -> (r: Vec<char>)
    requires
        lo <= hi <= v.len(),
    ensures
        r@ == v@.subrange(lo as int, hi as int),
{
    let mut r: Vec<char> = Vec::new();
    let mut i = lo;
    while i < hi
        invariant
            lo <= i <= hi <= v.len(),
            r@ == v@.subrange(lo as int, i as int),
        decreases hi - i,
    {
        r.push(v[i]);
        assert(v@.subrange(lo as int, i + 1) == v@.subrange(lo as int, i as int).push(v@[i as int]));
        i = i + 1;
    }
    r
}

/// The front matter of `v` and the body after it (see `front_matter`).
pub fn split_front_matter(v: &Vec<char>) -> (r: Option<(Vec<char>, Vec<char>)>)
    ensures
        match r {
            Some((fm, body)) => front_matter(v@) == Some((fm@, body@)),
            None => front_matter(v@) is None,
        },
{
    let open = chars_of("---\n");
    if !starts_with_chars(v, &open) {
        return None;
    }
    let after = tail_chars(v, open.len());
    let close = chars_of("\n---\n");
    let found = find_chars(&after, &close);
    match found {
        Some(e) => {
            assert(occurs_at(after@, close@, e as int));
            assert(e + close@.len() <= after@.len());
            let alen = after.len();
            assert(e + close.len() <= alen);
            let fm = slice_chars(&after, 0, e);
            let body = tail_chars(&after, e + close.len());
            assert(after@.subrange(0, e as int) == after@.take(e as int));
            Some((fm, body))
        },
        None => None,
    }
}

/// `s` without the prefix `p`, when it has it (`str::strip_prefix`).
pub open spec fn strip_prefix(s: Seq<char>, p: Seq<char>) -> Option<Seq<char>> {
    if starts_with(s, p) {
        Some(s.skip(p.len() as int))
    } else {
        None
    }
}

/// `v` without the prefix `p`, when it has it.
pub fn strip_prefix_chars(v: &Vec<char>, p: &str) -> (r: Option<Vec<char>>)
    ensures
        match r {
            Some(t) => strip_prefix(v@, p@) == Some(t@),
            None => strip_prefix(v@, p@) is None,
        },
{
    let pv = chars_of(p);
    if starts_with_chars(v, &pv) {
        Some(tail_chars(v, pv.len()))
    } else {
        None
    }
}


// ------------------------------------------------------------------
// First element satisfying a predicate
// ------------------------------------------------------------------

/// Position of the first element of `s` that satisfies `pred`, or -1.
pub open spec fn first_where<A>(s: Seq<A>, pred: spec_fn(A) -> bool) -> int
    decreases s.len(),
{
    if s.len() == 0 {
        -1
    } else if pred(s[0]) {
        0
    } else {
        let r = first_where(s.drop_first(), pred);
        if r < 0 {
            -1
        } else {
            r + 1
        }
    }
}

/// `first_where` is -1 or the position of the first element that satisfies `pred`.
pub proof fn lemma_first_where_props<A>(s: Seq<A>, pred: spec_fn(A) -> bool)
    ensures
        -1 <= first_where(s, pred) < s.len(),
        first_where(s, pred) >= 0 ==> pred(s[first_where(s, pred)]),
        forall|j: int|
            0 <= j < s.len() && (first_where(s, pred) < 0 || j < first_where(s, pred)) ==> !pred(s[j]),
    decreases s.len(),
{
    if s.len() > 0 && !pred(s[0]) {
        lemma_first_where_props(s.drop_first(), pred);
        assert forall|j: int|
            0 <= j < s.len() && (first_where(s, pred) < 0 || j < first_where(s, pred)) implies !pred(s[j]) by {
            if j > 0 {
                assert(s[j] == s.drop_first()[j - 1]);
            }
        }
    }
}

/// A first satisfying position, or the absence of any, determines `first_where`.
pub proof fn lemma_first_where_is<A>(s: Seq<A>, pred: spec_fn(A) -> bool, k: int)
    requires
        -1 <= k < s.len(),
        k >= 0 ==> pred(s[k]),
        forall|j: int| 0 <= j < s.len() && (k < 0 || j < k) ==> !pred(s[j]),
    ensures
        first_where(s, pred) == k,
    decreases s.len(),
{
    if s.len() > 0 && k != 0 {
        assert(!pred(s[0]));
        let t = s.drop_first();
        assert forall|j: int| 0 <= j < t.len() && (k - 1 < 0 || j < k - 1) implies !pred(t[j]) by {
            assert(t[j] == s[j + 1]);
        }
        if k > 0 {
            lemma_first_where_is(t, pred, k - 1);
        } else {
            lemma_first_where_is(t, pred, -1);
        }
    }
}


// ------------------------------------------------------------------
// Joining and replacing
// ------------------------------------------------------------------

/// The texts `ws` joined with `sep` between them (`[..].join(sep)`).
pub open spec fn join(ws: Seq<Seq<char>>, sep: Seq<char>) -> Seq<char>
    decreases ws.len(),
{
    if ws.len() == 0 {
        seq![]
    } else if ws.len() == 1 {
        ws[0]
    } else {
        join(ws.drop_last(), sep) + sep + ws.last()
    }
}

/// The texts held in `ws[..n]`, joined with `sep`.
pub fn join_chars(ws: &Vec<Vec<char>>, n: usize, sep: &str) -> (r: Vec<char>)
    requires
        n <= ws.len(),
    ensures
        r@ == join(texts(ws@).take(n as int), sep@),
{
    let sepv = chars_of(sep);
    let mut r: Vec<char> = Vec::new();
    let mut i: usize = 0;
    assert(texts(ws@).take(0) =~= Seq::<Seq<char>>::empty());
    while i < n
        invariant
            i <= n <= ws.len(),
            sepv@ == sep@,
            r@ == join(texts(ws@).take(i as int), sep@),
        decreases n - i,
    {
        let ghost before = texts(ws@).take(i as int);
        assert(texts(ws@).take(i + 1).drop_last() == before);
        assert(texts(ws@).take(i + 1).last() == ws@[i as int]@);
        if i > 0 {
            let mut s = sepv.clone();
            r.append(&mut s);
        }
        let mut w = ws[i].clone();
        r.append(&mut w);
        proof {
            if i == 0 {
                assert(r@ =~= join(texts(ws@).take(i + 1), sep@));
            } else {
                assert(r@ =~= join(texts(ws@).take(i + 1), sep@));
            }
        }
        i = i + 1;
    }
    r
}

/// `s` with every `from` replaced by `to`.
pub open spec fn replace_char(s: Seq<char>, from: char, to: char) -> Seq<char> {
    s.map_values(|c: char| if c == from { to } else { c })
}

/// `v` with every `from` replaced by `to`.
pub fn replace_chars(v: &Vec<char>, from: char, to: char) -> (r: Vec<char>)
    ensures
        r@ == replace_char(v@, from, to),
{
    let mut r: Vec<char> = Vec::new();
    let mut i: usize = 0;
    while i < v.len()
        invariant
            i <= v.len(),
            r@ == replace_char(v@.take(i as int), from, to),
        decreases v.len() - i,
    {
        let c = v[i];
        r.push(if c == from { to } else { c });
        assert(replace_char(v@.take(i + 1), from, to) =~= replace_char(v@.take(i as int), from, to).push(if c == from { to } else { c }));
        i = i + 1;
    }
    assert(v@.take(v@.len() as int) == v@);
    r
}


/// Position of the last `c` in `s`, or -1 (`str::rfind`).
pub open spec fn last_char_index(s: Seq<char>, c: char) -> int
    decreases s.len(),
{
    if s.len() == 0 {
        -1
    } else if s.last() == c {
        s.len() - 1
    } else {
        last_char_index(s.drop_last(), c)
    }
}

/// Last position of `c` in `v`.
pub fn rfind_char(v: &Vec<char>, c: char) -> (r: Option<usize>)
    ensures
        match r {
            Some(k) => k < v.len() && last_char_index(v@, c) == k,
            None => last_char_index(v@, c) == -1,
        },
{
    let mut i = v.len();
    assert(v@.take(v@.len() as int) == v@);
    while i > 0
        invariant
            i <= v.len(),
            last_char_index(v@, c) == last_char_index(v@.take(i as int), c),
        decreases i,
    {
        assert(v@.take(i as int).last() == v@[i - 1]);
        assert(v@.take(i as int).drop_last() == v@.take(i - 1));
        if v[i - 1] == c {
            return Some(i - 1);
        }
        i = i - 1;
    }
    None
}

/// The first `n` characters of `v` (all of them when it has fewer).
pub fn take_chars(v: &Vec<char>, n: usize) -> (r: Vec<char>)
    ensures
        r@ == v@.take(if n < v.len() { n as int } else { v.len() as int }),
{
    let m = if n < v.len() { n } else { v.len() };
    let r = slice_chars(v, 0, m);
    assert(v@.subrange(0, m as int) == v@.take(m as int));
    r
}

} // verus!
