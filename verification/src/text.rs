//! Character-level text handling shared by the command-output parsers:
//! whitespace, trimming, searching, line and token splitting, over `Seq<char>`.
use vstd::prelude::*;

verus! {

/// Unicode `White_Space` characters (the set `char::is_whitespace` tests).
pub open spec fn is_ws(c: char) -> bool {
    ||| ('\u{9}' <= c && c <= '\u{d}')
    ||| c == ' '
    ||| c == '\u{85}'
    ||| c == '\u{a0}'
    ||| c == '\u{1680}'
    ||| ('\u{2000}' <= c && c <= '\u{200a}')
    ||| c == '\u{2028}'
    ||| c == '\u{2029}'
    ||| c == '\u{202f}'
    ||| c == '\u{205f}'
    ||| c == '\u{3000}'
}

/// `s` with leading whitespace removed.
pub open spec fn trim_start(s: Seq<char>) -> Seq<char>
    decreases s.len(),
{
    if s.len() > 0 && is_ws(s[0]) {
        trim_start(s.drop_first())
    } else {
        s
    }
}

/// `s` with trailing whitespace removed.
pub open spec fn trim_end(s: Seq<char>) -> Seq<char>
    decreases s.len(),
{
    if s.len() > 0 && is_ws(s.last()) {
        trim_end(s.drop_last())
    } else {
        s
    }
}

/// `s` with whitespace removed at both ends.
pub open spec fn trim(s: Seq<char>) -> Seq<char> {
    trim_end(trim_start(s))
}

/// `s` with every trailing `c` removed.
pub open spec fn trim_end_char(s: Seq<char>, c: char) -> Seq<char>
    decreases s.len(),
{
    if s.len() > 0 && s.last() == c {
        trim_end_char(s.drop_last(), c)
    } else {
        s
    }
}

/// Index of the first `c` in `s`, or `s.len()` when there is none.
pub open spec fn find_char(s: Seq<char>, c: char) -> nat
    decreases s.len(),
{
    if s.len() == 0 {
        0
    } else if s[0] == c {
        0
    } else {
        1 + find_char(s.drop_first(), c)
    }
}

/// Index of the first whitespace character in `s`, or `s.len()`.
pub open spec fn find_ws(s: Seq<char>) -> nat
    decreases s.len(),
{
    if s.len() == 0 {
        0
    } else if is_ws(s[0]) {
        0
    } else {
        1 + find_ws(s.drop_first())
    }
}

/// `p` occurs in `s` at position `i`.
pub open spec fn occurs_at(s: Seq<char>, p: Seq<char>, i: int) -> bool {
    0 <= i && i + p.len() <= s.len() && s.subrange(i, i + p.len()) == p
}

/// `p` occurs somewhere in `s`.
pub open spec fn contains(s: Seq<char>, p: Seq<char>) -> bool {
    exists|i: int| occurs_at(s, p, i)
}

/// `s` begins with `p`.
pub open spec fn starts_with(s: Seq<char>, p: Seq<char>) -> bool {
    p.len() <= s.len() && s.take(p.len() as int) == p
}

/// Position of the first occurrence of `p` in `s`.
#[verifier::opaque]
pub open spec fn first_occurrence(s: Seq<char>, p: Seq<char>) -> Option<int> {
    if contains(s, p) {
        Some(choose|i: int| occurs_at(s, p, i) && forall|k: int| 0 <= k < i ==> !occurs_at(s, p, k))
    } else {
        None
    }
}

/// A line without the carriage return that ended it, if any.
pub open spec fn strip_cr(l: Seq<char>) -> Seq<char> {
    if l.len() > 0 && l.last() == '\r' {
        l.drop_last()
    } else {
        l
    }
}

/// The lines of `s` as `str::lines` yields them: split at `'\n'`, a `'\r'`
/// just before a `'\n'` dropped, no empty line after a final `'\n'`.
pub open spec fn lines(s: Seq<char>) -> Seq<Seq<char>>
    decreases s.len(),
{
    if s.len() == 0 {
        seq![]
    } else {
        let i = find_char(s, '\n') as int;
        if i < s.len() {
            seq![strip_cr(s.take(i))] + lines(s.skip(i + 1))
        } else {
            seq![s]
        }
    }
}

/// The whitespace-separated tokens of `s`, as `str::split_whitespace` yields them.
pub open spec fn tokens(s: Seq<char>) -> Seq<Seq<char>>
    decreases s.len(),
{
    let t = trim_start(s);
    if t.len() == 0 {
        seq![]
    } else {
        proof {
            lemma_trim_start_shape(s);
            lemma_find_ws(t);
        }
        let i = find_ws(t) as int;
        seq![t.take(i)] + tokens(t.skip(i))
    }
}

pub proof fn lemma_trim_start_shape(s: Seq<char>)
    ensures
        trim_start(s).len() <= s.len(),
        trim_start(s).len() > 0 ==> !is_ws(trim_start(s)[0]),
        trim_start(s).len() > 0 ==> find_ws(trim_start(s)) >= 1,
    decreases s.len(),
{
    if s.len() > 0 && is_ws(s[0]) {
        lemma_trim_start_shape(s.drop_first());
    }
}

pub proof fn lemma_find_char(s: Seq<char>, c: char)
    ensures
        find_char(s, c) <= s.len(),
        find_char(s, c) < s.len() ==> s[find_char(s, c) as int] == c,
        forall|k: int| 0 <= k < find_char(s, c) ==> s[k] != c,
    decreases s.len(),
{
    if s.len() > 0 && s[0] != c {
        lemma_find_char(s.drop_first(), c);
        assert forall|k: int| 0 <= k < find_char(s, c) implies s[k] != c by {
            if k > 0 {
                assert(s[k] == s.drop_first()[k - 1]);
            }
        }
    }
}

pub proof fn lemma_find_char_unique(s: Seq<char>, c: char, r: int)
    requires
        0 <= r <= s.len(),
        r < s.len() ==> s[r] == c,
        forall|k: int| 0 <= k < r ==> s[k] != c,
    ensures
        find_char(s, c) == r,
{
    lemma_find_char(s, c);
    let f = find_char(s, c) as int;
    if f < r {
        assert(s[f] != c);
    } else if r < f {
        assert(s[r] != c);
    }
}

pub proof fn lemma_find_ws(s: Seq<char>)
    ensures
        find_ws(s) <= s.len(),
        find_ws(s) < s.len() ==> is_ws(s[find_ws(s) as int]),
        forall|k: int| 0 <= k < find_ws(s) ==> !is_ws(s[k]),
    decreases s.len(),
{
    if s.len() > 0 && !is_ws(s[0]) {
        lemma_find_ws(s.drop_first());
        assert forall|k: int| 0 <= k < find_ws(s) implies !is_ws(s[k]) by {
            if k > 0 {
                assert(s[k] == s.drop_first()[k - 1]);
            }
        }
    }
}

pub proof fn lemma_find_ws_unique(s: Seq<char>, r: int)
    requires
        0 <= r <= s.len(),
        r < s.len() ==> is_ws(s[r]),
        forall|k: int| 0 <= k < r ==> !is_ws(s[k]),
    ensures
        find_ws(s) == r,
{
    lemma_find_ws(s);
    let f = find_ws(s) as int;
    if f < r {
        assert(!is_ws(s[f]));
    } else if r < f {
        assert(!is_ws(s[r]));
    }
}

/// `trim_start` drops exactly the leading run of whitespace.
pub proof fn lemma_trim_start(s: Seq<char>)
    ensures
        exists|k: int|
            0 <= k <= s.len() && trim_start(s) == s.skip(k) && (forall|j: int|
                0 <= j < k ==> is_ws(#[trigger] s[j])) && (k < s.len() ==> !is_ws(s[k])),
    decreases s.len(),
{
    if s.len() > 0 && is_ws(s[0]) {
        lemma_trim_start(s.drop_first());
        let k = choose|k: int|
            0 <= k <= s.drop_first().len() && trim_start(s.drop_first()) == s.drop_first().skip(k)
                && (forall|j: int| 0 <= j < k ==> is_ws(#[trigger] s.drop_first()[j])) && (k
                < s.drop_first().len() ==> !is_ws(s.drop_first()[k]));
        assert(s.drop_first().skip(k) =~= s.skip(k + 1));
        assert forall|j: int| 0 <= j < k + 1 implies is_ws(#[trigger] s[j]) by {
            if j > 0 {
                assert(s[j] == s.drop_first()[j - 1]);
            }
        }
    } else {
        assert(s.skip(0) =~= s);
    }
}

/// Characterises `trim_start` by the position where non-whitespace begins.
pub proof fn lemma_trim_start_at(s: Seq<char>, k: int)
    requires
        0 <= k <= s.len(),
        forall|j: int| 0 <= j < k ==> is_ws(#[trigger] s[j]),
        k < s.len() ==> !is_ws(s[k]),
    ensures
        trim_start(s) == s.skip(k),
    decreases s.len(),
{
    if k > 0 {
        assert(s.len() > 0 && is_ws(s[0]));
        assert forall|j: int| 0 <= j < k - 1 implies is_ws(#[trigger] s.drop_first()[j]) by {
            assert(s.drop_first()[j] == s[j + 1]);
        }
        lemma_trim_start_at(s.drop_first(), k - 1);
        assert(s.drop_first().skip(k - 1) =~= s.skip(k));
    } else {
        assert(s.skip(0) =~= s);
    }
}

/// Characterises `trim_end` by the position where trailing whitespace begins.
pub proof fn lemma_trim_end_at(s: Seq<char>, k: int)
    requires
        0 <= k <= s.len(),
        forall|j: int| k <= j < s.len() ==> is_ws(#[trigger] s[j]),
        k > 0 ==> !is_ws(s[k - 1]),
    ensures
        trim_end(s) == s.take(k),
    decreases s.len(),
{
    if k < s.len() {
        assert(is_ws(s.last()));
        assert forall|j: int| k <= j < s.drop_last().len() implies is_ws(
            #[trigger] s.drop_last()[j],
        ) by {
            assert(s.drop_last()[j] == s[j]);
        }
        lemma_trim_end_at(s.drop_last(), k);
        assert(s.drop_last().take(k) =~= s.take(k));
    } else {
        assert(s.take(k) =~= s);
    }
}

/// Characterises `trim_end_char` by the position where trailing `c`s begin.
pub proof fn lemma_trim_end_char_at(s: Seq<char>, c: char, k: int)
    requires
        0 <= k <= s.len(),
        forall|j: int| k <= j < s.len() ==> #[trigger] s[j] == c,
        k > 0 ==> s[k - 1] != c,
    ensures
        trim_end_char(s, c) == s.take(k),
    decreases s.len(),
{
    if k < s.len() {
        assert(s.last() == c);
        assert forall|j: int| k <= j < s.drop_last().len() implies #[trigger] s.drop_last()[j]
            == c by {
            assert(s.drop_last()[j] == s[j]);
        }
        lemma_trim_end_char_at(s.drop_last(), c, k);
        assert(s.drop_last().take(k) =~= s.take(k));
    } else {
        assert(s.take(k) =~= s);
    }
}

/// Tests a character for the Unicode `White_Space` property.
pub fn is_whitespace(c: char) -> (b: bool)
    ensures
        b == is_ws(c),
{
    ('\u{9}' <= c && c <= '\u{d}') || c == ' ' || c == '\u{85}' || c == '\u{a0}' || c
        == '\u{1680}' || ('\u{2000}' <= c && c <= '\u{200a}') || c == '\u{2028}' || c
        == '\u{2029}' || c == '\u{202f}' || c == '\u{205f}' || c == '\u{3000}'
}

/// The characters of `v` from `lo` up to `hi`.
pub fn slice_chars(v: &Vec<char>, lo: usize, hi: usize) -> (r: Vec<char>)
    requires
        lo <= hi <= v.len(),
    ensures
        r@ == v@.subrange(lo as int, hi as int),
{
    let mut r: Vec<char> = Vec::new();
    let mut i: usize = lo;
    while i < hi
        invariant
            lo <= i <= hi <= v.len(),
            r@ == v@.subrange(lo as int, i as int),
        decreases hi - i,
    {
        r.push(v[i]);
        i = i + 1;
        assert(r@ =~= v@.subrange(lo as int, i as int));
    }
    r
}

/// Whether two character sequences are equal.
pub fn chars_eq(a: &Vec<char>, b: &Vec<char>) -> (r: bool)
    ensures
        r == (a@ == b@),
{
    if a.len() != b.len() {
        return false;
    }
    let mut i: usize = 0;
    while i < a.len()
        invariant
            a.len() == b.len(),
            i <= a.len(),
            forall|k: int| 0 <= k < i ==> a@[k] == b@[k],
        decreases a.len() - i,
    {
        if a[i] != b[i] {
            return false;
        }
        i = i + 1;
    }
    assert(a@ =~= b@);
    true
}

/// `v` with leading and trailing whitespace removed.
pub fn trim_chars(v: &Vec<char>) -> (r: Vec<char>)
    ensures
        r@ == trim(v@),
{
    let mut lo: usize = 0;
    while lo < v.len() && is_whitespace(v[lo])
        invariant
            lo <= v.len(),
            forall|j: int| 0 <= j < lo ==> is_ws(#[trigger] v@[j]),
        decreases v.len() - lo,
    {
        lo = lo + 1;
    }
    proof {
        lemma_trim_start_at(v@, lo as int);
    }
    let mut hi: usize = v.len();
    while hi > lo && is_whitespace(v[hi - 1])
        invariant
            lo <= hi <= v.len(),
            forall|j: int| hi <= j < v.len() ==> is_ws(#[trigger] v@[j]),
        decreases hi,
    {
        hi = hi - 1;
    }
    let ghost t = v@.skip(lo as int);
    proof {
        assert forall|j: int| hi - lo <= j < t.len() implies is_ws(#[trigger] t[j]) by {
            assert(t[j] == v@[j + lo]);
        }
        if hi > lo {
            assert(t[hi - lo - 1] == v@[hi - 1]);
        }
        lemma_trim_end_at(t, hi - lo);
        assert(t.take(hi - lo) =~= v@.subrange(lo as int, hi as int));
    }
    slice_chars(v, lo, hi)
}

/// `v` with trailing whitespace removed.
pub fn trim_end_chars(v: &Vec<char>) -> (r: Vec<char>)
    ensures
        r@ == trim_end(v@),
{
    let mut hi: usize = v.len();
    while hi > 0 && is_whitespace(v[hi - 1])
        invariant
            hi <= v.len(),
            forall|j: int| hi <= j < v.len() ==> is_ws(#[trigger] v@[j]),
        decreases hi,
    {
        hi = hi - 1;
    }
    proof {
        lemma_trim_end_at(v@, hi as int);
        assert(v@.take(hi as int) =~= v@.subrange(0, hi as int));
    }
    slice_chars(v, 0, hi)
}

/// `v` with every trailing `c` removed.
pub fn trim_end_matches_char(v: &Vec<char>, c: char) -> (r: Vec<char>)
    ensures
        r@ == trim_end_char(v@, c),
{
    let mut hi: usize = v.len();
    while hi > 0 && v[hi - 1] == c
        invariant
            hi <= v.len(),
            forall|j: int| hi <= j < v.len() ==> #[trigger] v@[j] == c,
        decreases hi,
    {
        hi = hi - 1;
    }
    proof {
        lemma_trim_end_char_at(v@, c, hi as int);
        assert(v@.take(hi as int) =~= v@.subrange(0, hi as int));
    }
    slice_chars(v, 0, hi)
}

/// Whether `v` begins with `p`.
pub fn starts_with_chars(v: &Vec<char>, p: &Vec<char>) -> (r: bool)
    ensures
        r == starts_with(v@, p@),
{
    if p.len() > v.len() {
        return false;
    }
    let mut i: usize = 0;
    while i < p.len()
        invariant
            p.len() <= v.len(),
            i <= p.len(),
            forall|k: int| 0 <= k < i ==> v@[k] == p@[k],
        decreases p.len() - i,
    {
        if v[i] != p[i] {
            assert(v@.take(p.len() as int)[i as int] != p@[i as int]);
            return false;
        }
        i = i + 1;
    }
    assert(v@.take(p.len() as int) =~= p@);
    true
}

/// Whether `p` occurs in `v` at position `at`.
pub fn occurs_at_chars(v: &Vec<char>, p: &Vec<char>, at: usize) -> (r: bool)
    ensures
        r == occurs_at(v@, p@, at as int),
{
    if at > v.len() || p.len() > v.len() - at {
        return false;
    }
    let mut i: usize = 0;
    while i < p.len()
        invariant
            at + p.len() <= v.len(),
            i <= p.len(),
            forall|k: int| 0 <= k < i ==> v@[at + k] == p@[k],
        decreases p.len() - i,
    {
        if v[at + i] != p[i] {
            assert(v@.subrange(at as int, at + p.len())[i as int] != p@[i as int]);
            return false;
        }
        i = i + 1;
    }
    assert(v@.subrange(at as int, at + p.len()) =~= p@);
    true
}

/// Position of the first occurrence of `p` in `v`.
pub fn find_chars(v: &Vec<char>, p: &Vec<char>) -> (r: Option<usize>)
    ensures
        r matches Some(i) ==> first_occurrence(v@, p@) == Some(i as int) && occurs_at(
            v@,
            p@,
            i as int,
        ),
        r is None ==> first_occurrence(v@, p@) is None,
        r is Some <==> contains(v@, p@),
{
    reveal(first_occurrence);
    if p.len() > v.len() {
        assert(!contains(v@, p@));
        return None;
    }
    if p.len() == 0 {
        assert(v@.subrange(0, 0) =~= p@);
        assert(occurs_at(v@, p@, 0));
        return Some(0);
    }
    let mut i: usize = 0;
    while i <= v.len() - p.len()
        invariant
            0 < p.len() <= v.len(),
            i <= v.len() - p.len() + 1,
            forall|k: int| 0 <= k < i ==> !occurs_at(v@, p@, k),
        decreases v.len() - p.len() + 1 - i,
    {
        if occurs_at_chars(v, p, i) {
            proof {
                reveal(first_occurrence);
                let w = choose|w: int|
                    occurs_at(v@, p@, w) && forall|k: int| 0 <= k < w ==> !occurs_at(v@, p@, k);
                if w < i {
                } else if w > i {
                    assert(!occurs_at(v@, p@, i as int));
                }
            }
            return Some(i);
        }
        i = i + 1;
    }
    None
}

/// Whether `p` occurs in `v`.
pub fn contains_chars(v: &Vec<char>, p: &Vec<char>) -> (r: bool)
    ensures
        r == contains(v@, p@),
{
    find_chars(v, p).is_some()
}

/// Whether `c` occurs in `v`.
pub fn contains_char(v: &Vec<char>, c: char) -> (r: bool)
    ensures
        r == contains(v@, seq![c]),
{
    let mut i: usize = 0;
    while i < v.len()
        invariant
            i <= v.len(),
            forall|k: int| 0 <= k < i ==> v@[k] != c,
        decreases v.len() - i,
    {
        if v[i] == c {
            assert(v@.subrange(i as int, i + 1) =~= seq![c]);
            assert(occurs_at(v@, seq![c], i as int));
            return true;
        }
        i = i + 1;
    }
    assert forall|k: int| !occurs_at(v@, seq![c], k) by {
        if occurs_at(v@, seq![c], k) {
            assert(v@.subrange(k, k + 1)[0] == v@[k]);
        }
    }
    false
}

/// Index of the first `c` in `v` at or after `from`, or `v.len()`.
pub fn find_char_from(v: &Vec<char>, c: char, from: usize) -> (r: usize)
    requires
        from <= v.len(),
    ensures
        from <= r <= v.len(),
        r - from == find_char(v@.skip(from as int), c),
{
    let mut i: usize = from;
    while i < v.len() && v[i] != c
        invariant
            from <= i <= v.len(),
            forall|k: int| from <= k < i ==> v@[k] != c,
        decreases v.len() - i,
    {
        i = i + 1;
    }
    proof {
        let s = v@.skip(from as int);
        assert forall|k: int| 0 <= k < i - from implies s[k] != c by {
            assert(s[k] == v@[k + from]);
        }
        if i < v.len() {
            assert(s[i - from] == v@[i as int]);
        }
        lemma_find_char_unique(s, c, i - from);
    }
    i
}

/// Index of the first whitespace character in `v` at or after `from`, or `v.len()`.
pub fn find_ws_from(v: &Vec<char>, from: usize) -> (r: usize)
    requires
        from <= v.len(),
    ensures
        from <= r <= v.len(),
        r - from == find_ws(v@.skip(from as int)),
{
    let mut i: usize = from;
    while i < v.len() && !is_whitespace(v[i])
        invariant
            from <= i <= v.len(),
            forall|k: int| from <= k < i ==> !is_ws(v@[k]),
        decreases v.len() - i,
    {
        i = i + 1;
    }
    proof {
        let s = v@.skip(from as int);
        assert forall|k: int| 0 <= k < i - from implies !is_ws(s[k]) by {
            assert(s[k] == v@[k + from]);
        }
        if i < v.len() {
            assert(s[i - from] == v@[i as int]);
        }
        lemma_find_ws_unique(s, i - from);
    }
    i
}

/// The next line of `v` starting at `pos`, and the position after it.
pub fn next_line(v: &Vec<char>, pos: usize) -> (r: (Vec<char>, usize))
    requires
        pos < v.len(),
    ensures
        pos < r.1 <= v.len(),
        lines(v@.skip(pos as int)) == seq![r.0@] + lines(v@.skip(r.1 as int)),
{
    let j = find_char_from(v, '\n', pos);
    let ghost s = v@.skip(pos as int);
    if j < v.len() {
        let mut line = slice_chars(v, pos, j);
        if line.len() > 0 && line[line.len() - 1] == '\r' {
            line.pop();
        }
        proof {
            assert(s.take(j - pos) =~= v@.subrange(pos as int, j as int));
            assert(s.skip(j - pos + 1) =~= v@.skip(j + 1));
        }
        (line, j + 1)
    } else {
        let line = slice_chars(v, pos, j);
        proof {
            assert(s =~= v@.subrange(pos as int, j as int));
            assert(v@.skip(j as int).len() == 0);
            assert(lines(v@.skip(j as int)) =~= Seq::<Seq<char>>::empty());
            assert(seq![line@] + Seq::<Seq<char>>::empty() =~= seq![line@]);
        }
        (line, j)
    }
}

/// The whitespace-separated tokens of `v`.
pub fn split_whitespace(v: &Vec<char>) -> (r: Vec<Vec<char>>)
    ensures
        r.deep_view() == tokens(v@),
{
    let mut r: Vec<Vec<char>> = Vec::new();
    let mut pos: usize = 0;
    assert(v@.skip(0) =~= v@);
    loop
        invariant
            pos <= v.len(),
            r.deep_view() + tokens(v@.skip(pos as int)) == tokens(v@),
        decreases v.len() - pos,
    {
        let mut lo: usize = pos;
        while lo < v.len() && is_whitespace(v[lo])
            invariant
                pos <= lo <= v.len(),
                forall|j: int| pos <= j < lo ==> is_ws(#[trigger] v@[j]),
            decreases v.len() - lo,
        {
            lo = lo + 1;
        }
        let ghost s = v@.skip(pos as int);
        proof {
            assert forall|j: int| 0 <= j < lo - pos implies is_ws(#[trigger] s[j]) by {
                assert(s[j] == v@[j + pos]);
            }
            if lo < v.len() {
                assert(s[lo - pos] == v@[lo as int]);
            }
            lemma_trim_start_at(s, lo - pos);
            assert(s.skip(lo - pos) =~= v@.skip(lo as int));
        }
        if lo == v.len() {
            proof {
                assert(tokens(s) =~= Seq::<Seq<char>>::empty());
                assert(r.deep_view() + Seq::<Seq<char>>::empty() =~= r.deep_view());
            }
            return r;
        }
        let hi = find_ws_from(v, lo);
        let tok = slice_chars(v, lo, hi);
        proof {
            let t = v@.skip(lo as int);
            assert(t.take(hi - lo) =~= tok@);
            assert(t.skip(hi - lo) =~= v@.skip(hi as int));
            lemma_trim_start_shape(s);
        }
        let ghost old_r = r.deep_view();
        let ghost old_v = r@;
        r.push(tok);
        proof {
            assert(tok.deep_view() =~= tok@);
            assert(r@ == old_v.push(tok));
            assert forall|k: int| 0 <= k < old_r.len() implies r.deep_view()[k] == old_r[k] by {
                assert(r@[k] == old_v[k]);
            }
            assert(r.deep_view()[old_r.len() as int] == tok@);
            assert(r.deep_view() =~= old_r.push(tok@));
            assert(old_r + tokens(s) =~= r.deep_view() + tokens(v@.skip(hi as int)));
        }
        pos = hi;
    }
}

/// What `String::from_utf8_lossy` makes of a byte sequence.
pub uninterp spec fn utf8_lossy(bytes: Seq<u8>) -> Seq<char>;

/// Decodes bytes as UTF-8, replacing each invalid sequence by U+FFFD
/// (`String::from_utf8_lossy`, taken as an owned string). For valid UTF-8
/// this is plain decoding.
#[verifier::external_body]
fn lossy_string(bytes: &[u8]) -> (s: String)
    ensures
        s@ == utf8_lossy(bytes@),
        vstd::utf8::valid_utf8(bytes@) ==> s@ == vstd::utf8::decode_utf8(bytes@),
{
    String::from_utf8_lossy(bytes).into_owned()
}

/// The characters of bytes decoded as UTF-8, each invalid sequence replaced
/// by U+FFFD.
pub fn decode_lossy(bytes: &[u8]) -> (v: Vec<char>)
    ensures
        v@ == utf8_lossy(bytes@),
        vstd::utf8::valid_utf8(bytes@) ==> v@ == vstd::utf8::decode_utf8(bytes@),
{
    let s = lossy_string(bytes);
    str_chars(s.as_str())
}

/// The deep view of a vector of character vectors holds each one's view.
pub proof fn lemma_deep_view_chars(v: Vec<Vec<char>>)
    ensures
        v.deep_view().len() == v.len(),
        forall|i: int| 0 <= i < v.len() ==> #[trigger] v.deep_view()[i] == v@[i]@,
{
    assert forall|i: int| 0 <= i < v.len() implies #[trigger] v.deep_view()[i] == v@[i]@ by {
        assert(v@[i].deep_view() =~= v@[i]@);
    }
}

/// The text between the first and the second `c` of `s` (the second field of
/// `s.split(c)`).
pub open spec fn second_field(s: Seq<char>, c: char) -> Seq<char> {
    if find_char(s, c) < s.len() {
        let rest = s.skip(find_char(s, c) as int + 1);
        rest.take(find_char(rest, c) as int)
    } else {
        seq![]
    }
}

/// The list `seq![l] + rest` has head `l` and tail `rest`.
pub proof fn lemma_first_line(l: Seq<char>, rest: Seq<Seq<char>>)
    ensures
        (seq![l] + rest)[0] == l,
        (seq![l] + rest).drop_first() == rest,
        (seq![l] + rest).len() > 0,
{
    assert((seq![l] + rest).drop_first() =~= rest);
}

/// The text between the first and second `c` of `v`.
pub fn second_field_chars(v: &Vec<char>, c: char) -> (r: Vec<char>)
    ensures
        r@ == second_field(v@, c),
{
    let i = find_char_from(v, c, 0);
    assert(v@.skip(0) =~= v@);
    if i == v.len() {
        return Vec::new();
    }
    let j = find_char_from(v, c, i + 1);
    proof {
        assert(v@.skip(i + 1).take(j - i - 1) =~= v@.subrange(i + 1, j as int));
    }
    slice_chars(v, i + 1, j)
}

/// What `str::to_lowercase` makes of a string.
pub uninterp spec fn lowercase(s: Seq<char>) -> Seq<char>;

/// The lowercase form of a string (`str::to_lowercase`, Unicode rules).
#[verifier::external_body]
fn lowercase_string(s: &str) -> (r: String)
    ensures
        r@ == lowercase(s@),
{
    s.to_lowercase()
}

/// The lowercase form of a character sequence.
pub fn to_lowercase_chars(v: &Vec<char>) -> (r: Vec<char>)
    ensures
        r@ == lowercase(v@),
{
    let s = chars_string(v.as_slice());
    let l = lowercase_string(s.as_str());
    str_chars(l.as_str())
}

/// Whether `char::is_numeric` holds of a character (general categories Nd, Nl, No).
pub uninterp spec fn numeric(c: char) -> bool;

/// Tests a character for a numeric Unicode general category (`char::is_numeric`).
#[verifier::external_body]
pub(crate) fn is_numeric(c: char) -> (b: bool)
    ensures
        b == numeric(c),
{
    c.is_numeric()
}

/// `s` without its trailing non-numeric characters.
pub open spec fn drop_trailing_non_numeric(s: Seq<char>) -> Seq<char>
    decreases s.len(),
{
    if s.len() > 0 && !numeric(s.last()) {
        drop_trailing_non_numeric(s.drop_last())
    } else {
        s
    }
}

/// The run of numeric characters that ends `s`.
pub open spec fn numeric_suffix(s: Seq<char>) -> Seq<char>
    decreases s.len(),
{
    if s.len() > 0 && numeric(s.last()) {
        numeric_suffix(s.drop_last()).push(s.last())
    } else {
        seq![]
    }
}

/// The last maximal run of numeric characters in `s` (empty when there is none).
pub open spec fn last_numeric_run(s: Seq<char>) -> Seq<char> {
    numeric_suffix(drop_trailing_non_numeric(s))
}

/// The value of a run of ASCII decimal digits.
pub open spec fn digits_value(s: Seq<char>) -> nat
    decreases s.len(),
{
    if s.len() == 0 {
        0
    } else {
        digits_value(s.drop_last()) * 10 + (s.last() as nat - '0' as nat) as nat
    }
}

/// All characters are ASCII decimal digits.
pub open spec fn all_ascii_digits(s: Seq<char>) -> bool {
    forall|i: int| 0 <= i < s.len() ==> '0' <= #[trigger] s[i] && s[i] <= '9'
}

/// A non-empty run of ASCII digits whose value fits in a `u32`, read as a
/// decimal number.
pub open spec fn decimal_u32(s: Seq<char>) -> Option<u32> {
    if s.len() > 0 && all_ascii_digits(s) && digits_value(s) <= u32::MAX {
        Some(digits_value(s) as u32)
    } else {
        None
    }
}

proof fn lemma_drop_trailing_at(s: Seq<char>, j: int)
    requires
        0 <= j <= s.len(),
        forall|k: int| j <= k < s.len() ==> !numeric(#[trigger] s[k]),
        j > 0 ==> numeric(s[j - 1]),
    ensures
        drop_trailing_non_numeric(s) == s.take(j),
    decreases s.len(),
{
    if j < s.len() {
        assert forall|k: int| j <= k < s.drop_last().len() implies !numeric(
            #[trigger] s.drop_last()[k],
        ) by {
            assert(s.drop_last()[k] == s[k]);
        }
        lemma_drop_trailing_at(s.drop_last(), j);
        assert(s.drop_last().take(j) =~= s.take(j));
    } else {
        assert(s.take(j) =~= s);
    }
}

proof fn lemma_numeric_suffix_at(s: Seq<char>, k: int)
    requires
        0 <= k <= s.len(),
        forall|i: int| k <= i < s.len() ==> numeric(#[trigger] s[i]),
        k > 0 ==> !numeric(s[k - 1]),
    ensures
        numeric_suffix(s) == s.skip(k),
    decreases s.len(),
{
    if k < s.len() {
        assert forall|i: int| k <= i < s.drop_last().len() implies numeric(
            #[trigger] s.drop_last()[i],
        ) by {
            assert(s.drop_last()[i] == s[i]);
        }
        lemma_numeric_suffix_at(s.drop_last(), k);
        assert(s.drop_last().skip(k).push(s.last()) =~= s.skip(k));
    } else {
        assert(s.skip(k).len() == 0);
        assert(numeric_suffix(s) =~= s.skip(k));
    }
}

/// The ASCII digit for a value below ten.
pub open spec fn digit_char(d: int) -> char {
    if d == 0 {
        '0'
    } else if d == 1 {
        '1'
    } else if d == 2 {
        '2'
    } else if d == 3 {
        '3'
    } else if d == 4 {
        '4'
    } else if d == 5 {
        '5'
    } else if d == 6 {
        '6'
    } else if d == 7 {
        '7'
    } else if d == 8 {
        '8'
    } else {
        '9'
    }
}

/// The decimal notation of `n`, without leading zeros (`"0"` for zero).
pub open spec fn decimal(n: nat) -> Seq<char>
    decreases n,
{
    if n < 10 {
        seq![digit_char(n as int)]
    } else {
        decimal(n / 10).push(digit_char((n % 10) as int))
    }
}

/// Decimal notation reads back: every character of `decimal(n)` is an ASCII
/// digit, the first is `0` only for zero, and the digits' value is `n`.
pub proof fn lemma_decimal_reads_back(n: nat)
    ensures
        all_ascii_digits(decimal(n)),
        digits_value(decimal(n)) == n,
        decimal(n).len() > 0,
        decimal(n)[0] == '0' ==> n == 0,
    decreases n,
{
    if n >= 10 {
        lemma_decimal_reads_back(n / 10);
        let d = decimal(n / 10);
        let s = d.push(digit_char((n % 10) as int));
        assert(s.drop_last() =~= d);
        assert(s[0] == d[0]);
        assert(digit_char((n % 10) as int) as nat - '0' as nat == n % 10);
        assert(s.last() == digit_char((n % 10) as int));
        assert(digits_value(s) == digits_value(d) * 10 + (n % 10));
        assert(n == (n / 10) * 10 + n % 10) by (nonlinear_arith);
        assert(decimal(n) == s);
    } else {
        let one = seq![digit_char(n as int)];
        assert(one.drop_last() =~= Seq::<char>::empty());
        assert(digits_value(one.drop_last()) == 0);
        assert(digit_char(n as int) as nat - '0' as nat == n);
        assert(digits_value(one) == n);
        assert(decimal(n) == one);
    }
}

fn digit(d: u64) -> (c: char)
    requires
        d < 10,
    ensures
        c == digit_char(d as int),
{
    if d == 0 {
        '0'
    } else if d == 1 {
        '1'
    } else if d == 2 {
        '2'
    } else if d == 3 {
        '3'
    } else if d == 4 {
        '4'
    } else if d == 5 {
        '5'
    } else if d == 6 {
        '6'
    } else if d == 7 {
        '7'
    } else if d == 8 {
        '8'
    } else {
        '9'
    }
}

fn push_decimal(n: u64, out: &mut Vec<char>)
    ensures
        final(out)@ == old(out)@ + decimal(n as nat),
    decreases n,
{
    if n >= 10 {
        push_decimal(n / 10, out);
    }
    out.push(digit(n % 10));
    proof {
        if n >= 10 {
            assert(old(out)@ + decimal(n as nat) =~= old(out)@ + decimal((n / 10) as nat) + seq![
                digit_char((n % 10) as int),
            ]);
        } else {
            assert(old(out)@ + decimal(n as nat) =~= old(out)@.push(digit_char(n as int)));
        }
    }
}

/// The decimal notation of `n`.
pub fn decimal_text(n: u64) -> (s: String)
    ensures
        s@ == decimal(n as nat),
{
    let mut v: Vec<char> = Vec::new();
    push_decimal(n, &mut v);
    assert(v@ =~= decimal(n as nat));
    chars_string(v.as_slice())
}

/// The last maximal run of numeric characters in `v`.
pub fn last_numeric_run_chars(v: &Vec<char>) -> (r: Vec<char>)
    ensures
        r@ == last_numeric_run(v@),
{
    let mut j: usize = v.len();
    while j > 0 && !is_numeric(v[j - 1])
        invariant
            j <= v.len(),
            forall|k: int| j <= k < v.len() ==> !numeric(#[trigger] v@[k]),
        decreases j,
    {
        j = j - 1;
    }
    proof {
        lemma_drop_trailing_at(v@, j as int);
    }
    let mut k: usize = j;
    while k > 0 && is_numeric(v[k - 1])
        invariant
            k <= j <= v.len(),
            forall|i: int| k <= i < j ==> numeric(#[trigger] v@[i]),
        decreases k,
    {
        k = k - 1;
    }
    proof {
        let t = v@.take(j as int);
        assert forall|i: int| k <= i < t.len() implies numeric(#[trigger] t[i]) by {
            assert(t[i] == v@[i]);
        }
        if k > 0 {
            assert(t[k - 1] == v@[k - 1]);
        }
        lemma_numeric_suffix_at(t, k as int);
        assert(t.skip(k as int) =~= v@.subrange(k as int, j as int));
    }
    slice_chars(v, k, j)
}

proof fn lemma_digits_value_step(s: Seq<char>, i: int)
    requires
        0 <= i < s.len(),
    ensures
        digits_value(s.take(i + 1)) == digits_value(s.take(i)) * 10 + (s[i] as nat - '0' as nat) as nat,
{
    assert(s.take(i + 1).drop_last() =~= s.take(i));
}

/// Reads a run of ASCII decimal digits as a `u32`: `None` when it is empty,
/// holds another character, or is too large.
pub fn parse_decimal_u32(v: &Vec<char>) -> (r: Option<u32>)
    ensures
        r == decimal_u32(v@),
{
    if v.len() == 0 {
        return None;
    }
    let mut i: usize = 0;
    while i < v.len()
        invariant
            i <= v.len(),
            forall|k: int| 0 <= k < i ==> '0' <= #[trigger] v@[k] && v@[k] <= '9',
        decreases v.len() - i,
    {
        if v[i] < '0' || v[i] > '9' {
            return None;
        }
        i = i + 1;
    }
    let mut value: u32 = 0;
    let mut i: usize = 0;
    assert(v@.take(0) =~= Seq::<char>::empty());
    while i < v.len()
        invariant
            i <= v.len(),
            all_ascii_digits(v@),
            value == digits_value(v@.take(i as int)),
        decreases v.len() - i,
    {
        let d: u32 = (v[i] as u32) - ('0' as u32);
        proof {
            lemma_digits_value_step(v@, i as int);
        }
        if value > (u32::MAX - d) / 10 {
            proof {
                assert(digits_value(v@.take(i + 1)) > u32::MAX) by (nonlinear_arith)
                    requires
                        value > (u32::MAX - d) / 10,
                        digits_value(v@.take(i + 1)) == value * 10 + d,
                        d <= 9,
                ;
                lemma_digits_value_prefix(v@, i + 1);
            }
            return None;
        }
        proof {
            assert(value * 10 + d <= u32::MAX) by (nonlinear_arith)
                requires
                    value <= (u32::MAX - d) / 10,
                    d <= 9,
            ;
        }
        value = value * 10 + d;
        i = i + 1;
    }
    assert(v@.take(v.len() as int) =~= v@);
    Some(value)
}

/// A digit run is worth at least as much as any of its prefixes.
proof fn lemma_digits_value_prefix(s: Seq<char>, i: int)
    requires
        0 <= i <= s.len(),
        all_ascii_digits(s),
    ensures
        digits_value(s.take(i)) <= digits_value(s),
    decreases s.len() - i,
{
    if i < s.len() {
        lemma_digits_value_step(s, i);
        lemma_digits_value_prefix(s, i + 1);
    } else {
        assert(s.take(i) =~= s);
    }
}

/// The characters of a string slice.
pub fn str_chars(s: &str) -> (v: Vec<char>)
    ensures
        v@ == s@,
{
    broadcast use vstd::string::axiom_spec_iter;

    let mut v: Vec<char> = Vec::new();
    for c in it: s.chars()
        invariant
            it.seq() == s@,
            v@ == it.seq().take(it.index() as int),
    {
        proof {
            assert(it.seq().take(it.index() as int + 1) =~= v@.push(c));
        }
        v.push(c);
    }
    v
}

/// A string made of the given characters.
#[verifier::external_body]
pub(crate) fn chars_string(v: &[char]) -> (s: String)
    ensures
        s@ == v@,
{
    v.iter().collect()
}

} // verus!
